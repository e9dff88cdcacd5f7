//! The catalogues of the plugins: the tools each one offers with the JSON
//! schema of their arguments, and the resources and prompts of those that
//! have them. A catalogue is one JSON document, or where it is long a few
//! numbered documents whose sections, read in order, make up the whole.
use vstd::prelude::*;

verus! {

pub const MHB: &'static str = r#"{"tools":[
{"name":"mhb_list_templates","description":"Retrieves all available email templates from the MHB interaction service.","inputSchema":{"type":"object","properties":{}}},
{"name":"mhb_get_template","description":"Fetches a specific email template definition and its required variable schema by ID.","inputSchema":{"type":"object","properties":{"templateId":{"type":"string","description":"Unique identifier of the email template (e.g., 'internship-completion-certificate')"}},"required":["templateId"]}},
{"name":"mhb_render_template_preview","description":"Submits variables to render a fully styled HTML email template preview.","inputSchema":{"type":"object","properties":{"templateId":{"type":"string","description":"Identifier of the template to render"},"variables":{"type":"object","description":"JSON object containing data values mapped to the template's expected variables"}},"required":["templateId","variables"]}}
]}"#;

pub const AUDIO: &'static str = r#"{"tools":[
{"name":"extract_audio_track","description":"Extracts and converts audio from video links into MP3, FLAC, WAV, M4A, or Opus with cookie dir auto-matching.","inputSchema":{"type":"object","properties":{"url":{"type":"string","description":"Video/Audio stream URL"},"audioFormat":{"type":"string","enum":["mp3","flac","wav","m4a","opus"],"default":"mp3","description":"Target audio format conversion"},"audioQuality":{"type":"integer","enum":[0,1,2,3,4,5,6,7,8,9],"default":0,"description":"Audio quality compression (0 is highest quality, 9 is lowest)"},"outputDirectory":{"type":"string","description":"Target output directory for converted audio"},"cookiesDir":{"type":"string","description":"Directory containing site cookie files (e.g. youtube.txt, reddit.txt, cookies.txt)"},"cookiesFromBrowser":{"type":"string","description":"Browser to load session cookies from (e.g. 'chrome', 'firefox', 'edge', 'brave')"},"cookiesFile":{"type":"string","description":"Explicit path to a cookies.txt file"},"proxy":{"type":"string","description":"HTTP/HTTPS/SOCKS proxy URL"}},"required":["url"]}},
{"name":"download_music_track","description":"Fetches tracks, albums, or playlists from Spotify/Apple Music with ID3 metadata via spotdl.","inputSchema":{"type":"object","properties":{"url":{"type":"string","description":"Spotify or Apple Music URL"},"includeLyrics":{"type":"boolean","default":false,"description":"Whether to generate and download synced LRC lyrics"},"outputDirectory":{"type":"string","description":"Target directory for downloaded music files"}},"required":["url"]}}
]}"#;

pub const BROWSER_1: &'static str = r#"{"tools":[
{"name":"browser_session_start","description":"Starts a persistent browser session with the specified configuration.","inputSchema":{"type":"object","properties":{"engine":{"type":"string","enum":["agent-browser","cdp"],"default":"agent-browser","description":"Browser engine to use"},"browser_type":{"type":"string","enum":["chrome","brave","edge","auto"],"default":"auto","description":"Browser to launch"},"headed":{"type":"boolean","default":false,"description":"Launch visible browser window"},"output_dir":{"type":"string","description":"Directory for artifacts (screenshots, PDFs)"}},"required":[]}},
{"name":"browser_session_stop","description":"Stops a persistent browser session and cleans up resources.","inputSchema":{"type":"object","properties":{"session_id":{"type":"string","description":"Session ID to stop (omits default session if omitted)"}},"required":[]}},
{"name":"browser_session_list","description":"Lists all active browser sessions.","inputSchema":{"type":"object","properties":{}}},
{"name":"browser_navigate","description":"Opens a URL in a managed browser session or active browser window.","inputSchema":{"type":"object","properties":{"url":{"type":"string","description":"Target webpage URL to open"},"session_id":{"type":"string","description":"Session ID to use (creates new if omitted)"},"engine":{"type":"string","enum":["agent-browser","cdp"],"default":"agent-browser","description":"Browser engine"},"headed":{"type":"boolean","default":false,"description":"Launch visible browser"}},"required":["url"]}},
{"name":"browser_type","description":"Types text into a form input identified by element ref or CSS selector.","inputSchema":{"type":"object","properties":{"target":{"type":"string","description":"Element ref (e.g. '@e1') or CSS selector"},"value":{"type":"string","description":"Text value to type"},"session_id":{"type":"string","description":"Session ID to use"},"clear":{"type":"boolean","default":false,"description":"Clear input before typing"}},"required":["target","value"]}},
{"name":"browser_click","description":"Clicks an element using an accessibility ref, semantic role, or CSS selector.","inputSchema":{"type":"object","properties":{"target":{"type":"string","description":"Element ref (e.g. '@e2'), selector, or semantic role"},"session_id":{"type":"string","description":"Session ID to use"},"double_click":{"type":"boolean","default":false,"description":"Perform double click"},"new_tab":{"type":"boolean","default":false,"description":"Open in new background tab"}},"required":["target"]}},
{"name":"browser_fill","description":"Types text into a form input or textarea.","inputSchema":{"type":"object","properties":{"target":{"type":"string","description":"Element ref or CSS selector"},"value":{"type":"string","description":"Text value to type"},"session_id":{"type":"string","description":"Session ID to use"},"press_enter":{"type":"boolean","default":false,"description":"Press Enter after typing"}},"required":["target","value"]}}
]}"#;

pub const BROWSER_2: &'static str = r#"{"tools":[
{"name":"browser_select_option","description":"Selects an option in a dropdown element.","inputSchema":{"type":"object","properties":{"target":{"type":"string","description":"Element ref or CSS selector for the select element"},"value":{"type":"string","description":"Option value to select"},"label":{"type":"string","description":"Option label text to select (alternative to value)"},"session_id":{"type":"string","description":"Session ID to use"}},"required":["target"]}},
{"name":"browser_hover","description":"Hovers mouse over an element.","inputSchema":{"type":"object","properties":{"target":{"type":"string","description":"Element ref or CSS selector"},"session_id":{"type":"string","description":"Session ID to use"}},"required":["target"]}},
{"name":"browser_execute_script","description":"Evaluates arbitrary JavaScript in the context of the active page.","inputSchema":{"type":"object","properties":{"script":{"type":"string","description":"JavaScript expression or function body to execute"},"session_id":{"type":"string","description":"Session ID to use"}},"required":["script"]}},
{"name":"browser_screenshot","description":"Captures a viewport or full-page screenshot to the output directory.","inputSchema":{"type":"object","properties":{"filename":{"type":"string","description":"Custom filename (e.g. 'page.png')"},"session_id":{"type":"string","description":"Session ID to use"},"full_page":{"type":"boolean","default":false,"description":"Capture full scrollable page"},"output_dir":{"type":"string","description":"Custom destination folder"}}}},
{"name":"browser_pdf","description":"Exports the current page as a PDF file to the output directory.","inputSchema":{"type":"object","properties":{"filename":{"type":"string","description":"Custom filename (e.g. 'page.pdf')"},"session_id":{"type":"string","description":"Session ID to use"},"landscape":{"type":"boolean","default":false,"description":"Use landscape orientation"},"output_dir":{"type":"string","description":"Custom destination folder"}}}},
{"name":"browser_console_messages","description":"Retrieves console log messages from the browser.","inputSchema":{"type":"object","properties":{"session_id":{"type":"string","description":"Session ID to use"},"level":{"type":"string","enum":["debug","info","warn","error"],"description":"Filter by log level"},"limit":{"type":"number","description":"Maximum number of messages to return"}}}},
{"name":"browser_network_requests","description":"Retrieves network request information from the browser.","inputSchema":{"type":"object","properties":{"session_id":{"type":"string","description":"Session ID to use"},"url":{"type":"string","description":"Filter by URL pattern"},"method":{"type":"string","enum":["GET","POST","PUT","DELETE","HEAD","OPTIONS"],"description":"Filter by HTTP method"}}}}
]}"#;

pub const BROWSER_3: &'static str = r#"{"tools":[
{"name":"browser_cdp_connect","description":"Connects to an existing Chrome DevTools session.","inputSchema":{"type":"object","properties":{"target_host":{"type":"string","description":"Target host (e.g. 'localhost:9222')"},"web_socket_url":{"type":"string","description":"WebSocket URL for connection"}},"required":[]}},
{"name":"browser_cdp_request","description":"Sends a CDP request to the connected browser.","inputSchema":{"type":"object","properties":{"session_id":{"type":"string","description":"Session ID to use"},"method":{"type":"string","description":"CDP method name (e.g. 'Page.enable')"},"params":{"type":"object","description":"CDP request parameters"}},"required":["session_id","method"]}},
{"name":"browser_cdp_disconnect","description":"Disconnects from a CDP session.","inputSchema":{"type":"object","properties":{"session_id":{"type":"string","description":"Session ID to disconnect"}}}}
]}"#;

pub const EMAIL_1: &'static str = r#"{"tools":[
{"name":"verify_email_connection","description":"Probes and verifies IMAP and SMTP authentication and TLS connectivity with the configured mail server.","inputSchema":{"type":"object","properties":{"preset":{"type":"string","enum":["gmail","hostinger","outlook","custom"],"description":"Vendor configuration preset"},"email":{"type":"string","description":"Email address"},"password":{"type":"string","description":"Account password or App Password"}}}},
{"name":"list_mailboxes","description":"Lists all available mailboxes/folders (e.g. INBOX, Sent, Drafts, Trash, Spam) on the IMAP server.","inputSchema":{"type":"object","properties":{}}},
{"name":"list_messages","description":"Fetches paginated email summaries (UID, subject, sender, date, read status, attachment indicators) from a mailbox.","inputSchema":{"type":"object","properties":{"mailbox":{"type":"string","default":"INBOX","description":"Target mailbox folder name"},"limit":{"type":"integer","default":20,"description":"Maximum number of messages to fetch"},"page":{"type":"integer","default":1,"description":"Page number (1-based)"},"unreadOnly":{"type":"boolean","default":false,"description":"Filter strictly for unseen messages"}}}},
{"name":"search_messages","description":"Searches messages in a mailbox matching criteria such as sender, recipient, subject, body keyword, or date.","inputSchema":{"type":"object","properties":{"mailbox":{"type":"string","default":"INBOX","description":"Target mailbox folder"},"query":{"type":"string","description":"Keyword to search across subject and body"},"from":{"type":"string","description":"Filter by sender address/name"},"to":{"type":"string","description":"Filter by recipient address"},"subject":{"type":"string","description":"Filter by subject keyword"},"sinceDate":{"type":"string","description":"Date filter in YYYY-MM-DD or DD-MMM-YYYY format"},"limit":{"type":"integer","default":20,"description":"Maximum results to return"}}}},
{"name":"read_message","description":"Fetches and parses a full email by UID into Markdown/plain text, headers, recipient lists, and attachment metadata.","inputSchema":{"type":"object","properties":{"uid":{"type":"integer","description":"Unique identifier (UID) of the message"},"mailbox":{"type":"string","default":"INBOX","description":"Mailbox folder containing the message"},"markAsRead":{"type":"boolean","default":true,"description":"Whether to mark the message as read"}},"required":["uid"]}}
]}"#;

pub const EMAIL_2: &'static str = r#"{"tools":[
{"name":"download_attachment","description":"Extracts an attachment from a specific email UID and saves it to the output directory.","inputSchema":{"type":"object","properties":{"uid":{"type":"integer","description":"UID of the message"},"attachmentIndex":{"type":"integer","description":"Index of the attachment in the message"},"filename":{"type":"string","description":"Filename of the attachment to extract"},"mailbox":{"type":"string","default":"INBOX","description":"Mailbox folder containing the message"},"outputDirectory":{"type":"string","description":"Target folder on host disk to save the file"}},"required":["uid"]}},
{"name":"send_email","description":"Sends an email via SMTP with visual parity (automatically appends a copy to Sent mailbox if required by provider).","inputSchema":{"type":"object","properties":{"to":{"type":"string","description":"Recipient email address(es), comma-separated"},"subject":{"type":"string","description":"Subject line of the email"},"bodyText":{"type":"string","description":"Plain text content of the email"},"bodyHtml":{"type":"string","description":"Optional HTML content of the email"},"cc":{"type":"string","description":"Optional CC recipient(s), comma-separated"},"bcc":{"type":"string","description":"Optional BCC recipient(s), comma-separated"},"attachmentPaths":{"type":"array","items":{"type":"string"},"description":"Optional array of host file paths to attach"}},"required":["to","subject","bodyText"]}},
{"name":"reply_email","description":"Sends a threaded reply to an existing email, preserving Message-ID, In-Reply-To, and References headers for UI grouping.","inputSchema":{"type":"object","properties":{"originalUid":{"type":"integer","description":"UID of the original message to reply to"},"mailbox":{"type":"string","default":"INBOX","description":"Mailbox containing the original message"},"replyBody":{"type":"string","description":"Body text of the reply"},"replyAll":{"type":"boolean","default":false,"description":"Whether to reply to all original recipients"}},"required":["originalUid","replyBody"]}},
{"name":"draft_email","description":"Creates and saves an email draft into the Drafts mailbox via IMAP APPEND without sending.","inputSchema":{"type":"object","properties":{"to":{"type":"string","description":"Intended recipient email address"},"subject":{"type":"string","description":"Subject line"},"bodyText":{"type":"string","description":"Draft body text"}},"required":["to","subject","bodyText"]}},
{"name":"manage_message_flags","description":"Modifies message flags (mark read/unread, star/flag, unstar) on target message UIDs.","inputSchema":{"type":"object","properties":{"uid":{"type":"integer","description":"Target message UID"},"mailbox":{"type":"string","default":"INBOX","description":"Mailbox folder"},"action":{"type":"string","enum":["mark_read","mark_unread","star","unstar"],"description":"Flag action to perform"}},"required":["uid","action"]}}
]}"#;

pub const EMAIL_3: &'static str = r#"{"tools":[
{"name":"move_message","description":"Moves a message from one mailbox to another (e.g. archiving or moving to Trash).","inputSchema":{"type":"object","properties":{"uid":{"type":"integer","description":"Target message UID"},"sourceMailbox":{"type":"string","default":"INBOX","description":"Source mailbox"},"destinationMailbox":{"type":"string","description":"Destination mailbox (e.g. Trash, Archive)"}},"required":["uid","destinationMailbox"]}}
]}"#;

pub const FETCH: &'static str = r#"{"tools":[
{"name":"fetch","description":"Fetches a URL from the internet and extracts its contents as markdown (or raw text).","inputSchema":{"type":"object","properties":{"url":{"type":"string","description":"The full HTTP/HTTPS URL to fetch (e.g. 'https://example.com')"},"max_length":{"type":"integer","description":"Maximum number of characters to return (default: 50000)"},"start_index":{"type":"integer","description":"Start character index for pagination (default: 0)"},"raw":{"type":"boolean","description":"Return raw HTML/content instead of converting to Markdown (default: false)"},"paginate":{"type":"boolean","description":"Enable cursor pagination with next_start_index (default: false)"}},"required":["url"]}}
],"resources":[
{"uri":"rune://fetch/help","name":"Fetch Documentation","description":"Overview and guidelines for URL fetching, Markdown conversion, and pagination.","mimeType":"text/markdown"}
],"prompts":[
{"name":"fetch_and_summarize","description":"Fetches a web page and produces a structured summary of its contents.","arguments":[{"name":"url","description":"The HTTP or HTTPS URL to fetch and summarize","required":true}]},
{"name":"fetch_and_extract_markdown","description":"Fetches a URL and formats the page contents as clean, structured Markdown.","arguments":[{"name":"url","description":"The HTTP or HTTPS URL to extract","required":true}]}
]}"#;

pub const FIGMA_1: &'static str = r#"{"tools":[
{"name":"get_document_info","description":"Get detailed information about the current Figma document","inputSchema":{"type":"object","properties":{},"additionalProperties":false}},
{"name":"get_selection","description":"Get information about the current selection in Figma","inputSchema":{"type":"object","properties":{},"additionalProperties":false}},
{"name":"read_my_design","description":"Get detailed information about the current selection in Figma, including all node details","inputSchema":{"type":"object","properties":{},"additionalProperties":false}},
{"name":"get_node_info","description":"Get detailed information about a specific node in Figma","inputSchema":{"type":"object","required":["nodeId"],"properties":{"nodeId":{"type":"string","description":"The ID of the node to inspect"}}}},
{"name":"get_nodes_info","description":"Get detailed information about multiple nodes in Figma","inputSchema":{"type":"object","required":["nodeIds"],"properties":{"nodeIds":{"type":"array","items":{"type":"string"},"description":"Array of node IDs to get information about"}}}},
{"name":"create_rectangle","description":"Create a new rectangle in Figma","inputSchema":{"type":"object","required":["x","y","width","height"],"properties":{"x":{"type":"number","description":"X position on canvas"},"y":{"type":"number","description":"Y position on canvas"},"width":{"type":"number","description":"Width of the rectangle"},"height":{"type":"number","description":"Height of the rectangle"},"name":{"type":"string","description":"Optional name for the rectangle"},"parentId":{"type":"string","description":"Optional parent node ID to append the rectangle to"}}}}
]}"#;

pub const FIGMA_2: &'static str = r#"{"tools":[
{"name":"create_frame","description":"Create a new frame in Figma with optional layout and styling configurations","inputSchema":{"type":"object","required":["x","y","width","height"],"properties":{"x":{"type":"number","description":"X position on canvas"},"y":{"type":"number","description":"Y position on canvas"},"width":{"type":"number","description":"Width of the frame"},"height":{"type":"number","description":"Height of the frame"},"name":{"type":"string","description":"Optional name for the frame"},"parentId":{"type":"string","description":"Optional parent node ID to append the frame to"},"fillColor":{"type":"object","description":"Fill color in RGBA format (values 0-1)","properties":{"r":{"type":"number","minimum":0,"maximum":1,"description":"Red component (0-1)"},"g":{"type":"number","minimum":0,"maximum":1,"description":"Green component (0-1)"},"b":{"type":"number","minimum":0,"maximum":1,"description":"Blue component (0-1)"},"a":{"type":"number","minimum":0,"maximum":1,"description":"Alpha component (0-1)"}},"required":["r","g","b"]},"strokeColor":{"type":"object","description":"Stroke color in RGBA format (values 0-1)","properties":{"r":{"type":"number","minimum":0,"maximum":1,"description":"Red component (0-1)"},"g":{"type":"number","minimum":0,"maximum":1,"description":"Green component (0-1)"},"b":{"type":"number","minimum":0,"maximum":1,"description":"Blue component (0-1)"},"a":{"type":"number","minimum":0,"maximum":1,"description":"Alpha component (0-1)"}},"required":["r","g","b"]},"strokeWeight":{"type":"number","minimum":0,"description":"Stroke weight in pixels"},"layoutMode":{"type":"string","enum":["NONE","HORIZONTAL","VERTICAL"],"description":"Auto-layout mode for the frame (NONE, HORIZONTAL, VERTICAL)"},"layoutWrap":{"type":"string","enum":["NO_WRAP","WRAP"],"description":"Whether the auto-layout frame wraps its children (NO_WRAP, WRAP)"},"paddingTop":{"type":"number","description":"Top padding for auto-layout frame in pixels"},"paddingRight":{"type":"number","description":"Right padding for auto-layout frame in pixels"},"paddingBottom":{"type":"number","description":"Bottom padding for auto-layout frame in pixels"},"paddingLeft":{"type":"number","description":"Left padding for auto-layout frame in pixels"},"primaryAxisAlignItems":{"type":"string","enum":["MIN","MAX","CENTER","SPACE_BETWEEN"],"description":"Primary axis alignment (MIN, MAX, CENTER, SPACE_BETWEEN)"},"counterAxisAlignItems":{"type":"string","enum":["MIN","MAX","CENTER","BASELINE"],"description":"Counter axis alignment (MIN, MAX, CENTER, BASELINE)"},"layoutSizingHorizontal":{"type":"string","enum":["FIXED","HUG","FILL"],"description":"Horizontal layout sizing mode (FIXED, HUG, FILL)"},"layoutSizingVertical":{"type":"string","enum":["FIXED","HUG","FILL"],"description":"Vertical layout sizing mode (FIXED, HUG, FILL)"},"itemSpacing":{"type":"number","description":"Distance between children in auto-layout frame in pixels"}}}}
]}"#;

pub const FIGMA_3: &'static str = r#"{"tools":[
{"name":"create_text","description":"Create a new text element in Figma","inputSchema":{"type":"object","required":["x","y","text"],"properties":{"x":{"type":"number","description":"X position on canvas"},"y":{"type":"number","description":"Y position on canvas"},"text":{"type":"string","description":"Text content string"},"fontSize":{"type":"number","description":"Font size in pixels (default: 14)"},"fontWeight":{"type":"number","description":"Font weight (e.g., 400 for Regular, 700 for Bold)"},"fontColor":{"type":"object","description":"Font color in RGBA format (values 0-1)","properties":{"r":{"type":"number","minimum":0,"maximum":1,"description":"Red component (0-1)"},"g":{"type":"number","minimum":0,"maximum":1,"description":"Green component (0-1)"},"b":{"type":"number","minimum":0,"maximum":1,"description":"Blue component (0-1)"},"a":{"type":"number","minimum":0,"maximum":1,"description":"Alpha component (0-1)"}},"required":["r","g","b"]},"name":{"type":"string","description":"Semantic layer name for text node"},"parentId":{"type":"string","description":"Optional parent node ID to append text to"}}}},
{"name":"set_fill_color","description":"Set the fill color of a node in Figma (TextNode or FrameNode)","inputSchema":{"type":"object","required":["nodeId","r","g","b"],"properties":{"nodeId":{"type":"string","description":"The ID of the node to modify"},"r":{"type":"number","minimum":0,"maximum":1,"description":"Red color component (0-1)"},"g":{"type":"number","minimum":0,"maximum":1,"description":"Green color component (0-1)"},"b":{"type":"number","minimum":0,"maximum":1,"description":"Blue color component (0-1)"},"a":{"type":"number","minimum":0,"maximum":1,"default":1.0,"description":"Alpha opacity component (0-1)"}}}},
{"name":"set_stroke_color","description":"Set the stroke color and weight of a node in Figma","inputSchema":{"type":"object","required":["nodeId","r","g","b"],"properties":{"nodeId":{"type":"string","description":"The ID of the node to modify"},"r":{"type":"number","minimum":0,"maximum":1,"description":"Red color component (0-1)"},"g":{"type":"number","minimum":0,"maximum":1,"description":"Green color component (0-1)"},"b":{"type":"number","minimum":0,"maximum":1,"description":"Blue color component (0-1)"},"a":{"type":"number","minimum":0,"maximum":1,"default":1.0,"description":"Alpha opacity component (0-1)"},"weight":{"type":"number","minimum":0.5,"default":1.0,"description":"Stroke weight in pixels"}}}},
{"name":"move_node","description":"Move a node to a new absolute position in Figma","inputSchema":{"type":"object","required":["nodeId","x","y"],"properties":{"nodeId":{"type":"string","description":"The ID of the node to move"},"x":{"type":"number","description":"New X coordinate on canvas"},"y":{"type":"number","description":"New Y coordinate on canvas"}}}}
]}"#;

pub const FIGMA_4: &'static str = r#"{"tools":[
{"name":"clone_node","description":"Clone an existing node in Figma with optional new placement","inputSchema":{"type":"object","required":["nodeId"],"properties":{"nodeId":{"type":"string","description":"The ID of the node to clone"},"x":{"type":"number","description":"Optional new X position for the clone"},"y":{"type":"number","description":"Optional new Y position for the clone"}}}},
{"name":"resize_node","description":"Resize a node in Figma","inputSchema":{"type":"object","required":["nodeId","width","height"],"properties":{"nodeId":{"type":"string","description":"The ID of the node to resize"},"width":{"type":"number","minimum":0.01,"description":"New width in pixels"},"height":{"type":"number","minimum":0.01,"description":"New height in pixels"}}}},
{"name":"delete_node","description":"Delete a single node from Figma","inputSchema":{"type":"object","required":["nodeId"],"properties":{"nodeId":{"type":"string","description":"The ID of the node to delete"}}}},
{"name":"delete_multiple_nodes","description":"Delete multiple nodes from Figma at once","inputSchema":{"type":"object","required":["nodeIds"],"properties":{"nodeIds":{"type":"array","items":{"type":"string"},"description":"Array of node IDs to delete from canvas"}}}},
{"name":"export_node_as_image","description":"Export a node as an image from Figma","inputSchema":{"type":"object","required":["nodeId"],"properties":{"nodeId":{"type":"string","description":"The ID of the node to export"},"format":{"type":"string","enum":["PNG","JPG","SVG","PDF"],"default":"PNG","description":"Export image format (PNG, JPG, SVG, PDF)"},"scale":{"type":"number","minimum":0.1,"maximum":4.0,"default":1.0,"description":"Export scale factor (e.g., 1.0, 2.0)"}}}},
{"name":"set_text_content","description":"Set the text content of an existing text node in Figma","inputSchema":{"type":"object","required":["nodeId","text"],"properties":{"nodeId":{"type":"string","description":"The ID of the text node to modify"},"text":{"type":"string","description":"New text string to set"}}}},
{"name":"get_styles","description":"Get all styles from the current Figma document","inputSchema":{"type":"object","properties":{}}},
{"name":"get_local_components","description":"Get all local components from the Figma document","inputSchema":{"type":"object","properties":{}}},
{"name":"get_annotations","description":"Get all annotations in the current document or for a specific node","inputSchema":{"type":"object","properties":{"nodeId":{"type":"string","description":"Optional node ID to query annotations for"},"includeCategories":{"type":"boolean","default":true,"description":"Whether to include category details in result"}}}}
]}"#;

pub const FIGMA_5: &'static str = r#"{"tools":[
{"name":"set_annotation","description":"Create or update an annotation on a Figma node","inputSchema":{"type":"object","required":["nodeId","labelMarkdown"],"properties":{"nodeId":{"type":"string","description":"The ID of the node to annotate"},"annotationId":{"type":"string","description":"The ID of the annotation to update if modifying existing"},"labelMarkdown":{"type":"string","description":"Annotation text content formatted in markdown"},"categoryId":{"type":"string","description":"The ID of the annotation category"},"properties":{"type":"array","description":"Additional properties array for the annotation","items":{"type":"object","required":["type"],"properties":{"type":{"type":"string","description":"Property type identifier"}}}}}}},
{"name":"set_multiple_annotations","description":"Set multiple annotations in batches within a node","inputSchema":{"type":"object","required":["nodeId","annotations"],"properties":{"nodeId":{"type":"string","description":"The ID of the parent node containing elements to annotate"},"annotations":{"type":"array","description":"Array of annotation objects to apply","items":{"type":"object","required":["nodeId","labelMarkdown"],"properties":{"nodeId":{"type":"string","description":"The ID of the node to annotate"},"labelMarkdown":{"type":"string","description":"Annotation text content in markdown"},"categoryId":{"type":"string","description":"Optional category ID"},"annotationId":{"type":"string","description":"Optional existing annotation ID to update"},"properties":{"type":"array","description":"Optional properties array","items":{"type":"object","required":["type"],"properties":{"type":{"type":"string","description":"Property type identifier"}}}}}}}}}},
{"name":"create_component_instance","description":"Create an instance of a local or published Figma component","inputSchema":{"type":"object","required":["x","y"],"properties":{"componentId":{"type":"string","description":"ID of a local component to instantiate"},"componentKey":{"type":"string","description":"Key of a published library component to instantiate"},"x":{"type":"number","description":"X position on canvas"},"y":{"type":"number","description":"Y position on canvas"},"parentId":{"type":"string","description":"Optional parent node ID to place instance inside"}}}},
{"name":"get_instance_overrides","description":"Get all override properties from a selected component instance","inputSchema":{"type":"object","properties":{"nodeId":{"type":"string","description":"Optional component instance ID to copy overrides from"}}}},
{"name":"set_instance_overrides","description":"Apply previously copied overrides to target component instances","inputSchema":{"type":"object","required":["sourceInstanceId","targetNodeIds"],"properties":{"sourceInstanceId":{"type":"string","description":"ID of the source component instance"},"targetNodeIds":{"type":"array","items":{"type":"string"},"description":"Array of target instance IDs to apply overrides to"}}}}
]}"#;

pub const FIGMA_6: &'static str = r#"{"tools":[
{"name":"set_corner_radius","description":"Set the corner radius of a node in Figma","inputSchema":{"type":"object","required":["nodeId","radius"],"properties":{"nodeId":{"type":"string","description":"The ID of the node to modify"},"radius":{"type":"number","minimum":0,"description":"Corner radius value in pixels"},"corners":{"type":"array","items":{"type":"boolean"},"minItems":4,"maxItems":4,"description":"Array of 4 booleans [topLeft, topRight, bottomRight, bottomLeft]"}}}},
{"name":"scan_text_nodes","description":"Scan and extract all text nodes within a container node in Figma","inputSchema":{"type":"object","required":["nodeId"],"properties":{"nodeId":{"type":"string","description":"The ID of the container node to scan for text nodes"}}}},
{"name":"scan_nodes_by_types","description":"Scan for child nodes with specific types (e.g. COMPONENT, FRAME, TEXT)","inputSchema":{"type":"object","required":["nodeId","types"],"properties":{"nodeId":{"type":"string","description":"The ID of the container node to scan"},"types":{"type":"array","items":{"type":"string"},"description":"Array of node types to search for (e.g. COMPONENT, FRAME, TEXT)"}}}},
{"name":"set_multiple_text_contents","description":"Set multiple text contents parallelly in a batch within a node","inputSchema":{"type":"object","required":["nodeId","text"],"properties":{"nodeId":{"type":"string","description":"The ID of the parent node containing text nodes"},"text":{"type":"array","description":"Array of text node IDs and their replacement texts","items":{"type":"object","required":["nodeId","text"],"properties":{"nodeId":{"type":"string","description":"The ID of the text node"},"text":{"type":"string","description":"Replacement text string"}}}}}}},
{"name":"set_layout_mode","description":"Set the auto-layout mode and wrap behavior of a frame in Figma","inputSchema":{"type":"object","required":["nodeId","layoutMode"],"properties":{"nodeId":{"type":"string","description":"The ID of the frame to modify"},"layoutMode":{"type":"string","enum":["NONE","HORIZONTAL","VERTICAL"],"description":"Auto-layout direction mode (NONE, HORIZONTAL, VERTICAL)"},"layoutWrap":{"type":"string","enum":["NO_WRAP","WRAP"],"default":"NO_WRAP","description":"Whether the auto-layout frame wraps (NO_WRAP, WRAP)"}}}},
{"name":"set_padding","description":"Set padding values for an auto-layout frame in Figma","inputSchema":{"type":"object","required":["nodeId"],"properties":{"nodeId":{"type":"string","description":"The ID of the frame to modify"},"paddingTop":{"type":"number","description":"Top padding value in pixels"},"paddingRight":{"type":"number","description":"Right padding value in pixels"},"paddingBottom":{"type":"number","description":"Bottom padding value in pixels"},"paddingLeft":{"type":"number","description":"Left padding value in pixels"}}}}
]}"#;

pub const FIGMA_7: &'static str = r#"{"tools":[
{"name":"set_axis_align","description":"Set primary and counter axis alignment for an auto-layout frame","inputSchema":{"type":"object","required":["nodeId"],"properties":{"nodeId":{"type":"string","description":"The ID of the frame to modify"},"primaryAxisAlignItems":{"type":"string","enum":["MIN","MAX","CENTER","SPACE_BETWEEN"],"description":"Primary axis alignment mode (MIN, MAX, CENTER, SPACE_BETWEEN)"},"counterAxisAlignItems":{"type":"string","enum":["MIN","MAX","CENTER","BASELINE"],"description":"Counter axis alignment mode (MIN, MAX, CENTER, BASELINE)"}}}},
{"name":"set_layout_sizing","description":"Set horizontal and vertical layout sizing modes (FIXED, HUG, FILL)","inputSchema":{"type":"object","required":["nodeId"],"properties":{"nodeId":{"type":"string","description":"The ID of the frame to modify"},"layoutSizingHorizontal":{"type":"string","enum":["FIXED","HUG","FILL"],"description":"Horizontal sizing mode (FIXED, HUG, FILL)"},"layoutSizingVertical":{"type":"string","enum":["FIXED","HUG","FILL"],"description":"Vertical sizing mode (FIXED, HUG, FILL)"}}}},
{"name":"set_item_spacing","description":"Set distance between children in an auto-layout frame","inputSchema":{"type":"object","required":["nodeId"],"properties":{"nodeId":{"type":"string","description":"The ID of the frame to modify"},"itemSpacing":{"type":"number","description":"Distance between children in auto-layout frame in pixels"},"counterAxisSpacing":{"type":"number","description":"Distance between wrapped rows or columns"}}}},
{"name":"get_reactions","description":"Get Figma prototyping reactions from multiple nodes","inputSchema":{"type":"object","required":["nodeIds"],"properties":{"nodeIds":{"type":"array","items":{"type":"string"},"description":"Array of node IDs to extract prototyping reactions from"}}}},
{"name":"set_default_connector","description":"Set a connector node as the default style connector","inputSchema":{"type":"object","properties":{"connectorId":{"type":"string","description":"Optional ID of connector node to set as default style"}}}},
{"name":"create_connections","description":"Create connections between nodes using the default connector style","inputSchema":{"type":"object","required":["connections"],"properties":{"connections":{"type":"array","description":"Array of node connection pairs to create","items":{"type":"object","required":["startNodeId","endNodeId"],"properties":{"startNodeId":{"type":"string","description":"Starting node ID"},"endNodeId":{"type":"string","description":"Ending node ID"},"text":{"type":"string","description":"Optional label text on the connector"}}}}}}},
{"name":"set_focus","description":"Focus on a specific node in Figma and pan/zoom viewport to it","inputSchema":{"type":"object","required":["nodeId"],"properties":{"nodeId":{"type":"string","description":"The ID of the node to focus and scroll viewport to"}}}}
]}"#;

pub const FIGMA_8: &'static str = r#"{"tools":[
{"name":"set_selections","description":"Select multiple nodes in Figma and adjust viewport to encompass them","inputSchema":{"type":"object","required":["nodeIds"],"properties":{"nodeIds":{"type":"array","items":{"type":"string"},"description":"Array of node IDs to select and frame on canvas"}}}},
{"name":"set_image_fill","description":"Fill a node in Figma with an image from local path, URL, or base64","inputSchema":{"type":"object","required":["nodeId"],"properties":{"nodeId":{"type":"string","description":"The ID of the node to fill"},"imagePath":{"type":"string","description":"Absolute path to local image file"},"imageUrl":{"type":"string","description":"Image HTTP/HTTPS URL"},"imageBase64":{"type":"string","description":"Base64 image data string"},"scaleMode":{"type":"string","enum":["FILL","FIT","CROP","TILE"],"default":"FILL","description":"How the image fills the node (FILL, FIT, CROP, TILE)"}}}},
{"name":"rename_node","description":"Rename a node in Figma","inputSchema":{"type":"object","required":["nodeId","name"],"properties":{"nodeId":{"type":"string","description":"The ID of the node to rename"},"name":{"type":"string","description":"The new layer name for the node"}}}},
{"name":"create_section","description":"Create a section in Figma to group related content on the canvas","inputSchema":{"type":"object","required":["x","y","width","height"],"properties":{"x":{"type":"number","description":"X position on canvas"},"y":{"type":"number","description":"Y position on canvas"},"width":{"type":"number","description":"Width of the section"},"height":{"type":"number","description":"Height of the section"},"name":{"type":"string","default":"Section","description":"Optional name for the section"}}}},
{"name":"set_parent","description":"Move a node into a new parent node (section, frame, or group)","inputSchema":{"type":"object","required":["nodeId","parentId"],"properties":{"nodeId":{"type":"string","description":"The ID of the node to move"},"parentId":{"type":"string","description":"The ID of the new parent node (section, frame, or group)"},"x":{"type":"number","description":"Optional X position relative to new parent"},"y":{"type":"number","description":"Optional Y position relative to new parent"},"index":{"type":"integer","description":"Optional child index to insert at"}}}},
{"name":"join_channel","description":"Join a specific WebSocket communication channel to communicate with Figma","inputSchema":{"type":"object","required":["channel"],"properties":{"channel":{"type":"string","description":"The name of the WebSocket channel to join"}}}}
],"resources":[
{"uri":"rune://figma/document","name":"Figma Document Info","description":"Root metadata and page layout of the current Figma document","mimeType":"application/json"},
{"uri":"rune://figma/selection","name":"Figma Current Selection","description":"Details of currently selected nodes on the active page","mimeType":"application/json"}
]}"#;

pub const FIGMA_9: &'static str = r#"{"resources":[
{"uri":"rune://figma/styles","name":"Figma Document Styles","description":"Color, text, effect, and grid styles declared in this document","mimeType":"application/json"}
],"prompts":[
{"name":"design_strategy","description":"Best practices and hierarchical strategy for authoring Figma designs","arguments":[]},
{"name":"read_design_strategy","description":"Best practices for inspecting, parsing, and reading Figma designs","arguments":[]},
{"name":"text_replacement_strategy","description":"Systematic chunked approach for replacing text and preserving visual layout","arguments":[]},
{"name":"annotation_conversion_strategy","description":"Strategy for converting manual visual callouts to native Figma annotations","arguments":[]},
{"name":"swap_overrides_instances","description":"Guide to swap overrides and transfer customized content between component instances","arguments":[]},
{"name":"reaction_to_connector_strategy","description":"Convert Figma prototype reactions to visual canvas connector lines","arguments":[]}
]}"#;

pub const FILESYSTEM_1: &'static str = r#"{"tools":[
{"name":"read_text_file","description":"Read a text file as line-based pages. Use 'head'/'tail' for quick previews, or 'lineOffset'/'lineLimit' to page through large files.","inputSchema":{"type":"object","properties":{"path":{"type":"string","description":"The file path to read. Can be relative to the allowed directory (e.g. 'notes.txt') or an absolute path within it."},"head":{"type":"number","description":"If provided, returns only the first N lines of the file"},"tail":{"type":"number","description":"If provided, returns only the last N lines of the file"},"lineOffset":{"type":"number","description":"0-based line number to start reading from"},"lineLimit":{"type":"number","description":"Max lines to return in this page (default 2000)"}},"required":["path"]}},
{"name":"read_media_file","description":"Read an image or media file. Images are returned directly as visual image blocks for multimodal vision models up to 20MB. Audio and binary return as paged resources.","inputSchema":{"type":"object","properties":{"path":{"type":"string","description":"Path to the media/binary file. Can be relative to the allowed directory or an absolute path within it."},"offset":{"type":"number","description":"Byte offset to start reading from (default 0)"},"length":{"type":"number","description":"Bytes to read (defaults to full file for images up to 20MB, capped at 512KB for non-images)"}},"required":["path"]}},
{"name":"read_multiple_files","description":"Read the contents of multiple files simultaneously.","inputSchema":{"type":"object","properties":{"paths":{"type":"array","items":{"type":"string"},"description":"Array of file paths to read (relative to the allowed directory or absolute paths within it)"}},"required":["paths"]}},
{"name":"write_file","description":"Create a new file or completely overwrite an existing file with new content.","inputSchema":{"type":"object","properties":{"path":{"type":"string","description":"The file path to write to. Can be relative to the allowed directory or an absolute path within it."},"content":{"type":"string","description":"The text content to write"}},"required":["path","content"]}},
{"name":"edit_file","description":"Make line-based edits to a text file. Each edit replaces exact line sequences with new content.","inputSchema":{"type":"object","properties":{"path":{"type":"string","description":"The file path to edit. Can be relative to the allowed directory or an absolute path within it."},"edits":{"type":"array","description":"List of text replacement edits to apply","items":{"type":"object","properties":{"oldText":{"type":"string","description":"Text to search for - must match exactly"},"newText":{"type":"string","description":"Text to replace with"}},"required":["oldText","newText"]}},"dryRun":{"type":"boolean","default":false,"description":"Preview changes using git-style diff format without saving"}},"required":["path","edits"]}}
]}"#;

pub const FILESYSTEM_2: &'static str = r#"{"tools":[
{"name":"create_directory","description":"Create a new directory or ensure a directory exists, including parent directories.","inputSchema":{"type":"object","properties":{"path":{"type":"string","description":"The directory path to create. Can be relative to the allowed directory or an absolute path within it."}},"required":["path"]}},
{"name":"list_directory","description":"Get a detailed listing of all files and directories in a specified path.","inputSchema":{"type":"object","properties":{"path":{"type":"string","description":"The directory path to inspect (defaults to '.' for the root allowed directory, or a relative/absolute path within it)"}},"required":["path"]}},
{"name":"list_directory_with_sizes","description":"Get a detailed listing of all files and directories in a specified path with sizes and sort options.","inputSchema":{"type":"object","properties":{"path":{"type":"string","description":"The directory path to inspect (defaults to '.' for the root allowed directory, or a relative/absolute path within it)"},"sortBy":{"type":"string","enum":["name","size"],"default":"name","description":"Sort entries by name or size"}},"required":["path"]}},
{"name":"directory_tree","description":"Get a recursive tree view of files and directories as a JSON structure.","inputSchema":{"type":"object","properties":{"path":{"type":"string","description":"The directory root path (defaults to '.' for the root allowed directory, or a relative/absolute path within it)"},"excludePatterns":{"type":"array","items":{"type":"string"},"default":[],"description":"Glob patterns to exclude"}},"required":["path"]}},
{"name":"move_file","description":"Move or rename files and directories safely.","inputSchema":{"type":"object","properties":{"source":{"type":"string","description":"Source path. Can be relative to the allowed directory or an absolute path within it."},"destination":{"type":"string","description":"Destination path. Can be relative to the allowed directory or an absolute path within it."}},"required":["source","destination"]}},
{"name":"search_files","description":"Recursively search for files and directories matching a glob pattern.","inputSchema":{"type":"object","properties":{"path":{"type":"string","description":"Root path to search within (defaults to '.' for the root allowed directory, or a relative/absolute path within it)"},"pattern":{"type":"string","description":"Glob pattern (e.g. '*.rs', '**/*.json')"},"excludePatterns":{"type":"array","items":{"type":"string"},"default":[],"description":"Patterns to ignore"}},"required":["path","pattern"]}},
{"name":"get_file_info","description":"Retrieve comprehensive metadata about a file or directory.","inputSchema":{"type":"object","properties":{"path":{"type":"string","description":"Path to inspect. Can be relative to the allowed directory or an absolute path within it."}},"required":["path"]}}
]}"#;

pub const FILESYSTEM_3: &'static str = r#"{"tools":[
{"name":"list_allowed_directories","description":"Returns the list of directories that this server is allowed to access. Paths in other tool calls can be relative to these roots or passed directly.","inputSchema":{"type":"object","properties":{}}}
]}"#;

pub const GAME_ENGINE_1: &'static str = r#"{"tools":[
{"name":"generate_path_network","description":"Calculates smooth 3D splines (Catmull-Rom/Bezier), Frenet-Serret reference frames, curvature metrics, and rail/road extrusion geometry.","inputSchema":{"type":"object","properties":{"nodes":{"type":"array","description":"Control nodes with 3D positions and optional banking angles","items":{"type":"object","properties":{"id":{"type":"string","description":"Node identifier"},"position":{"type":"array","items":{"type":"number"},"minItems":3,"maxItems":3,"description":"3D position [x, y, z]"},"banking":{"type":"number","description":"Banking angle"},"tangent":{"type":"array","items":{"type":"number"},"description":"Tangent vector [x, y, z]"}},"required":["id","position"]}},"curve_type":{"type":"string","enum":["catmull_rom","bezier","bspline"],"default":"catmull_rom","description":"Type of spline interpolation"},"closed":{"type":"boolean","default":false,"description":"Whether the path forms a closed loop"},"cross_section":{"type":"string","enum":["rail","pipe","road","custom"],"default":"rail","description":"Cross-section profile type"},"profile_options":{"type":"object","description":"Profile configuration options","properties":{"gauge_width":{"type":"number","description":"Track gauge width"},"tie_spacing":{"type":"number","description":"Spacing between ties"},"pylon_interval":{"type":"number","description":"Interval between pylons"}}}},"required":["nodes"]}},
{"name":"generate_procedural_biome","description":"Generates procedural scene geometry, terrain anchors, scattering manifests, and lighting/skybox definitions.","inputSchema":{"type":"object","properties":{"terrain_type":{"type":"string","enum":["floating_islands","heightmap","archipelago"],"description":"Type of terrain to generate"},"palette":{"type":"object","description":"Visual palette configuration","properties":{"sky_gradient":{"type":"array","items":{"type":"string"},"minItems":2,"maxItems":2,"description":"Sky gradient colors [start, end]"},"ambient":{"type":"string","description":"Ambient light color"},"surface_colors":{"type":"array","items":{"type":"string"},"description":"Surface material colors"}},"required":["sky_gradient","ambient","surface_colors"]},"feature_scatter":{"type":"array","description":"Scattered features in the biome","items":{"type":"object","properties":{"asset_type":{"type":"string","description":"Type of asset"},"density":{"type":"number","description":"Spawn density"},"cluster_rule":{"type":"string","description":"Clustering rule"}},"required":["asset_type","density"]}},"boundary_box":{"type":"array","description":"3D boundary box [[min_x, min_y, min_z], [max_x, max_y, max_z]]","items":{"type":"array","items":{"type":"number"}}}},"required":["terrain_type","palette","boundary_box"]}}
]}"#;

pub const GAME_ENGINE_2: &'static str = r#"{"tools":[
{"name":"assemble_modular_rig","description":"Assembles modular vehicle or avatar hierarchies, attachment sockets, and interactive sub-components with camera anchors.","inputSchema":{"type":"object","properties":{"base_chassis":{"type":"object","description":"Base chassis definition","properties":{"dimensions":{"type":"array","items":{"type":"number"},"minItems":3,"maxItems":3,"description":"Chassis dimensions [x, y, z]"},"pivot_offset":{"type":"array","items":{"type":"number"},"description":"Pivot offset [x, y, z]"}},"required":["dimensions"]},"sockets":{"type":"array","description":"Attachment sockets","items":{"type":"object","properties":{"socket_id":{"type":"string","description":"Unique socket identifier"},"transform":{"type":"array","items":{"type":"number"},"description":"Socket transform [x, y, z]"}},"required":["socket_id","transform"]}},"attachments":{"type":"array","items":{"type":"object"},"description":"Attached components"},"interior_occupants":{"type":"array","items":{"type":"object"},"description":"Interior occupants"}},"required":["base_chassis"]}},
{"name":"simulate_path_kinematics","description":"Advances 1D/spline-constrained dynamics with throttle, braking, track grade, centrifugal roll, and external forces.","inputSchema":{"type":"object","properties":{"transform_state":{"type":"object","description":"Current transform state","properties":{"t_normalized":{"type":"number","description":"Normalized progress along path (0-1)"},"velocity":{"type":"number","description":"Current velocity"},"acceleration":{"type":"number","description":"Current acceleration"}},"required":["t_normalized","velocity"]},"control_intent":{"type":"object","description":"Driver control inputs","properties":{"throttle":{"type":"number","description":"Throttle input (0-1)"},"brake":{"type":"number","description":"Brake input (0-1)"}},"required":["throttle","brake"]},"track_metrics":{"type":"object","description":"Track geometry metrics","properties":{"curvature":{"type":"number","description":"Track curvature"},"grade_angle":{"type":"number","description":"Track grade angle"}}},"external_forces":{"type":"object","description":"External forces acting on vehicle","properties":{"vector":{"type":"array","items":{"type":"number"},"description":"Force vector [x, y, z]"},"drag_coeff":{"type":"number","description":"Drag coefficient"}}},"vehicle_specs":{"type":"object","description":"Vehicle specifications","properties":{"max_speed":{"type":"number","description":"Maximum speed"},"power_accel":{"type":"number","description":"Power acceleration"},"brake_decel":{"type":"number","description":"Braking deceleration"},"suspension_roll_factor":{"type":"number","description":"Suspension roll factor"}}},"delta_time":{"type":"number","default":0.0166,"description":"Time step in seconds"}},"required":["transform_state","control_intent"]}}
]}"#;

pub const GAME_ENGINE_3: &'static str = r#"{"tools":[
{"name":"evaluate_dynamic_comfort","description":"Evaluates passenger/cargo ride quality, G-force tolerances, jerk penalties, and streak status.","inputSchema":{"type":"object","properties":{"g_force_history":{"type":"array","description":"History of G-force samples","items":{"type":"object","properties":{"lateral_g":{"type":"number","description":"Lateral G-force"},"vertical_g":{"type":"number","description":"Vertical G-force"},"jerk":{"type":"number","description":"Jerk value"}},"required":["lateral_g","vertical_g","jerk"]}},"current_comfort_score":{"type":"number","description":"Current comfort score (0-100)"},"thresholds":{"type":"object","description":"Comfort thresholds","properties":{"max_comfortable_g":{"type":"number","description":"Maximum comfortable G-force"},"jerk_penalty_rate":{"type":"number","description":"Jerk penalty multiplier"}}},"streak_status":{"type":"object","description":"Current streak status","properties":{"active":{"type":"boolean","description":"Whether a streak is active"},"count":{"type":"integer","description":"Current streak count"}},"required":["active","count"]}},"required":["g_force_history","current_comfort_score","streak_status"]}},
{"name":"manage_zone_lifecycle","description":"Handles station, hazard, or checkpoint lifecycle transitions, door mechanics, bonuses, and HUD notifications.","inputSchema":{"type":"object","properties":{"zone_type":{"type":"string","enum":["station","checkpoint","hazard","workshop"],"description":"Type of zone"},"trigger_event":{"type":"string","enum":["enter","dock","exit"],"description":"Trigger event"},"entity_state":{"type":"object","description":"Current entity state"},"zone_context":{"type":"object","description":"Zone context information","properties":{"queue_count":{"type":"integer","description":"Queue count"},"subtitles":{"type":"string","description":"Subtitle text"},"bonus_values":{"type":"number","description":"Bonus values"}}}},"required":["zone_type","trigger_event","entity_state"]}},
{"name":"synthesize_audio_graph","description":"Synthesizes modular Web Audio API node graphs for zero-asset procedural sound effects (rail clatter, wind, bells, engines).","inputSchema":{"type":"object","properties":{"audio_preset":{"type":"string","enum":["engine_drone","friction_surface","chime","environmental_wind"],"description":"Audio preset type"},"driver_parameters":{"type":"object","description":"Driver-specific parameters"}},"required":["audio_preset"]}}
]}"#;

pub const GAME_ENGINE_4: &'static str = r#"{"tools":[
{"name":"bundle_webgl_container","description":"Bundles simulation logic, graphics, audio, and HUD into a single zero-dependency standalone HTML file.","inputSchema":{"type":"object","properties":{"renderer":{"type":"string","enum":["threejs","canvas2d"],"default":"threejs","description":"Rendering backend"},"engine_scripts":{"type":"array","items":{"type":"string"},"description":"Engine script code snippets"},"ui_layout":{"type":"object","description":"UI layout configuration","properties":{"hud_anchors":{"type":"object","description":"HUD element positions"},"theme_css":{"type":"string","description":"Custom CSS theme"},"control_mode":{"type":"string","description":"Control input mode"}},"required":["hud_anchors"]},"embedded_assets":{"type":"object","description":"Embedded assets"}},"required":["engine_scripts","ui_layout"]}},
{"name":"inspect_webgl_performance","description":"Audits a WebGL HTML bundle against target framerate, draw call budgets, memory estimates, and platform constraints.","inputSchema":{"type":"object","properties":{"html_bundle":{"type":"string","description":"HTML bundle content to inspect"},"target_fps":{"type":"integer","default":60,"description":"Target framerate"},"draw_call_limit":{"type":"integer","default":150,"description":"Maximum draw calls"},"simulated_devices":{"type":"array","items":{"type":"string"},"description":"Devices to simulate"}},"required":["html_bundle"]}},
{"name":"compile_declarative_bundle","description":"Compiles a declarative JSON specification into a complete single-file HTML/WebGL artifact server-side. Eliminates token streaming by pre-validating engine templates and assembling artifacts deterministically.","inputSchema":{"type":"object","properties":{"engine":{"type":"string","description":"Rendering backend (threejs, canvas2d)"},"theme":{"type":"string","description":"Visual theme name (ghibli_coastal, cyberpunk, minimal)"},"pipeline":{"type":"array","description":"Pipeline steps to execute (spline, biome, kinematics, audio, rig)","items":{"type":"object","properties":{"type":{"type":"string","description":"Step type identifier"},"params":{"type":"object","description":"Step configuration"}},"required":["type"]}},"assets":{"type":"object","description":"Additional assets to embed"},"ui_config":{"type":"object","description":"UI layout configuration"}},"required":["engine","theme","pipeline"]}}
]}"#;

pub const GAME_ENGINE_5: &'static str = r#"{"tools":[
{"name":"batch_pipeline_executor","description":"Executes multi-stage computational graphs in a single server-side cycle using dependency DAGs. Reduces tool round-trips from 15 to 1.","inputSchema":{"type":"object","properties":{"steps":{"type":"array","description":"Pipeline steps to execute","items":{"type":"object","properties":{"type":{"type":"string","description":"Step type"},"params":{"type":"object","description":"Step parameters"}},"required":["type"]}},"input_state":{"type":"object","description":"Initial state for pipeline"},"parallel":{"type":"boolean","default":false,"description":"Execute steps in parallel"}},"required":["steps","input_state"]}},
{"name":"patch_ast_node","description":"Performs AST-aware source code mutations targeting functions or object keys by identifier. Eliminates regex/string-matching errors like CRLF/LF mismatches.","inputSchema":{"type":"object","properties":{"file_path":{"type":"string","description":"Path to file to patch"},"node_type":{"type":"string","description":"AST node type (VariableDeclaration, ObjectProperty, etc.)"},"node_name":{"type":"string","description":"Identifier/name to target"},"operation":{"type":"string","enum":["set","update","delete","add"],"description":"Mutation operation"},"new_value":{"type":"object","description":"New value to set"},"context":{"type":"object","description":"Optional context for mutation"}},"required":["file_path","node_type","node_name","operation"]}},
{"name":"validate_headless_runtime","description":"Executes code inside a headless sandbox (Playwright/Puppeteer) to output syntax errors, unhandled exceptions, and runtime FPS. Eliminates manual inspection scripts.","inputSchema":{"type":"object","properties":{"html_bundle":{"type":"string","description":"HTML bundle to validate"},"test_cases":{"type":"array","items":{"type":"string"},"description":"Test case names to run"},"timeout_ms":{"type":"integer","default":30000,"description":"Execution timeout"},"headless":{"type":"boolean","default":true,"description":"Run in headless mode"}},"required":["html_bundle"]}},
{"name":"cache_template_registry","description":"Caches standard CDN bundles, UI boilerplate CSS, and math libraries locally so the model only configures deltas. Saves ~10,000 repetitive boilerplate tokens per project.","inputSchema":{"type":"object","properties":{"template_name":{"type":"string","description":"Name of template to cache"},"template_type":{"type":"string","enum":["html_boilerplate","css_theme","math_library","webgl_stub"],"description":"Template category"},"custom_config":{"type":"object","description":"Custom configuration for template"}},"required":["template_name","template_type"]}}
]}"#;

pub const GAME_ENGINE_6: &'static str = r#"{"tools":[
{"name":"simulate_virtual_playtest","description":"Executes automated player behaviors in a headless browser to collect quantitative telemetry on comfort, camera jerk, input lag, and frustration events. Detects blind design issues before manual QA.","inputSchema":{"type":"object","properties":{"html_bundle":{"type":"string","description":"HTML bundle to test"},"input_script":{"type":"array","description":"Automated player input sequence","items":{"type":"object","properties":{"time_ms":{"type":"integer","description":"Timestamp in milliseconds"},"keys_down":{"type":"array","items":{"type":"string"},"description":"Keys pressed"},"keys_up":{"type":"array","items":{"type":"string"},"description":"Keys released"}},"required":["time_ms"]}},"metrics_to_track":{"type":"array","items":{"type":"string","enum":["g_forces","comfort","fps","camera_jerk","input_lag"]},"description":"Metrics to collect during simulation"}},"required":["html_bundle"]}},
{"name":"configure_camera_controller","description":"Generates smooth cinematic camera rigs with spring damping, dynamic FOV expansion, spline look-ahead, and frustum bounds. Eliminates stiff or disorienting camera behavior.","inputSchema":{"type":"object","properties":{"camera_mode":{"type":"string","description":"Camera mode","enum":["follow_rail","spring_arm","cockpit","isometric"]},"target_entity_id":{"type":"string","description":"Target entity to follow"},"look_ahead":{"type":"object","description":"Look-ahead configuration for spline following","properties":{"enabled":{"type":"boolean","description":"Enable look-ahead","default":true},"spline_lead_t":{"type":"number","description":"Look-ahead distance along spline","minimum":0.0,"maximum":0.5}},"required":["enabled","spline_lead_t"]},"dynamic_fov":{"type":"object","description":"Dynamic field of view configuration","properties":{"base_fov":{"type":"number","description":"Base field of view","minimum":30,"maximum":120},"max_fov":{"type":"number","description":"Maximum FOV at high speed","minimum":60,"maximum":120},"speed_scaler":{"type":"number","description":"FOV expansion factor","minimum":0.0,"maximum":1.0}},"required":["base_fov","max_fov","speed_scaler"]},"damping":{"type":"object","description":"Camera damping configuration","properties":{"position_lag":{"type":"number","description":"Position interpolation lag","minimum":0.0,"maximum":1.0},"rotation_lag":{"type":"number","description":"Rotation interpolation lag","minimum":0.0,"maximum":1.0}},"required":["position_lag","rotation_lag"]}},"required":["camera_mode","damping","dynamic_fov","look_ahead"]}}
]}"#;

pub const GAME_ENGINE_7: &'static str = r#"{"tools":[
{"name":"synthesize_game_feel_system","description":"Transforms sterile movement into tactile game feel by orchestrating screen shake, particles, audio ducking, chromatic aberration, chassis sway, and speed lines. Adds weight, momentum, and impact feedback.","inputSchema":{"type":"object","properties":{"feedback_channels":{"type":"array","description":"Feedback channels to activate","items":{"type":"object","properties":{"name":{"type":"string","enum":["screen_shake","particles","audio_ducking","chromatic_aberration","chassis_sway","wind_particles"]},"intensity_scale":{"type":"number","minimum":0.0,"maximum":1.0,"default":0.5}},"required":["name"]}},"event_mappings":{"type":"array","description":"Event mappings for feedback triggers","items":{"type":"object","properties":{"trigger":{"type":"string","description":"Event trigger (cornering, hard_brake, impact, drift)"},"intensity_metric":{"type":"string","description":"Metric that drives intensity"},"action":{"type":"string","description":"Feedback action to execute"}},"required":["trigger","action"]}}},"required":["feedback_channels","event_mappings"]}},
{"name":"tune_gameplay_parameters","description":"Generates lightweight on-screen slider panels (Tweakpane/Dat.GUI) or headless config hooks to expose hardcoded values (braking power, comfort decay, friction) for runtime tuning without recompilation.","inputSchema":{"type":"object","properties":{"harness_type":{"type":"string","enum":["tweakpane","dat_gui","headless_config"],"description":"UI harness type"},"tunable_registry":{"type":"array","description":"List of tunable parameters","items":{"type":"object","properties":{"key":{"type":"string","description":"Parameter key"},"path":{"type":"string","description":"Object path to parameter"},"type":{"type":"string","enum":["number","boolean","select"],"description":"Parameter type"},"min":{"type":"number","description":"Minimum value"},"max":{"type":"number","description":"Maximum value"},"step":{"type":"number","description":"Step size"},"default":{"type":"number","description":"Default value"}},"required":["key","path","type","default"]}},"preset_profiles":{"type":"object","description":"Named presets for different tuning modes"}},"required":["harness_type","tunable_registry"]}}
]}"#;

pub const GAME_ENGINE_8: &'static str = r#"{"tools":[
{"name":"balance_mechanic_economy","description":"Prevents abrupt mechanic triggers by applying sigmoid smoothing, grace periods (coyote time), and fair decay windows. Balances streak rewards, tip bonuses, and comfort penalties with mathematical elegance.","inputSchema":{"type":"object","properties":{"input_variables":{"type":"array","description":"Input variables for the mechanic","items":{"type":"object","properties":{"name":{"type":"string","description":"Variable name"},"domain":{"type":"array","items":{"type":"number"},"minItems":2,"maxItems":2,"description":"[min, max] domain"}},"required":["name","domain"]}},"target_metric":{"type":"string","enum":["comfort_score","tip_reward","streak_decay"],"description":"Target metric to balance"},"curve_type":{"type":"string","enum":["exponential","logarithmic","sigmoid","piecewise"],"description":"Curve shape for smoothing"},"forgiveness_window_sec":{"type":"number","minimum":0.0,"maximum":10.0,"default":0.5,"description":"Grace period in seconds"}},"required":["input_variables","target_metric","curve_type"]}},
{"name":"audit_shader_and_material_pipeline","description":"Validates shader uniforms, lighting setups, material properties, and fog configuration before runtime. Prevents black-screen bugs and Three.js refreshFogUniforms crashes from missing uniforms.","inputSchema":{"type":"object","properties":{"scene_materials":{"type":"array","description":"Scene materials to validate","items":{"type":"object","properties":{"material_id":{"type":"string","description":"Material identifier"},"type":{"type":"string","description":"Material type (MeshBasicMaterial, MeshStandardMaterial, etc.)"},"shaders":{"type":"object","description":"Custom shader definitions"},"uniforms":{"type":"object","description":"Required uniforms"}},"required":["material_id","type"]}},"environment_features":{"type":"object","description":"Environment rendering features","properties":{"has_fog":{"type":"boolean","description":"Whether environment has fog","default":false},"tonemapping":{"type":"string","description":"Tone mapping algorithm","enum":["linear","reinhard","acg"]}}}},"required":["scene_materials","environment_features"]}}
]}"#;

pub const GIT_1: &'static str = r#"{"tools":[
{"name":"git_status","description":"Shows the working tree status using host git.","inputSchema":{"type":"object","properties":{"repo_path":{"type":"string","description":"Path to the repository (default: current directory or REPO_PATH)"}}}},
{"name":"git_diff_unstaged","description":"Shows changes in the working tree not yet staged.","inputSchema":{"type":"object","properties":{"repo_path":{"type":"string","description":"Path to the repository"}}}},
{"name":"git_diff_staged","description":"Shows changes that are staged for commit.","inputSchema":{"type":"object","properties":{"repo_path":{"type":"string","description":"Path to the repository"}}}},
{"name":"git_diff","description":"Shows changes between branches or commits.","inputSchema":{"type":"object","properties":{"repo_path":{"type":"string","description":"Path to the repository"},"target":{"type":"string","description":"Target commit/branch (default: HEAD)"}}}},
{"name":"git_commit","description":"Records changes to the repository with a commit message.","inputSchema":{"type":"object","properties":{"repo_path":{"type":"string","description":"Path to the repository"},"message":{"type":"string","description":"The commit message"}},"required":["message"]}},
{"name":"git_add","description":"Adds file contents to the staging area.","inputSchema":{"type":"object","properties":{"repo_path":{"type":"string","description":"Path to the repository"},"files":{"type":"array","items":{"type":"string"},"description":"List of files to add (default: all)"}}}},
{"name":"git_reset","description":"Resets current HEAD to the specified state.","inputSchema":{"type":"object","properties":{"repo_path":{"type":"string","description":"Path to the repository"}}}},
{"name":"git_log","description":"Shows commit logs from the current branch.","inputSchema":{"type":"object","properties":{"repo_path":{"type":"string","description":"Path to the repository"},"max_count":{"type":"integer","description":"Max number of commits to return (default: 10)"}}}},
{"name":"git_create_branch","description":"Creates a new branch from current HEAD.","inputSchema":{"type":"object","properties":{"repo_path":{"type":"string","description":"Path to the repository"},"branch_name":{"type":"string","description":"Name of the new branch"}},"required":["branch_name"]}},
{"name":"git_checkout","description":"Switches branches in the repository.","inputSchema":{"type":"object","properties":{"repo_path":{"type":"string","description":"Path to the repository"},"branch_name":{"type":"string","description":"Branch to switch to"}},"required":["branch_name"]}},
{"name":"git_show","description":"Shows commit metadata and patch details.","inputSchema":{"type":"object","properties":{"repo_path":{"type":"string","description":"Path to the repository"},"revision":{"type":"string","description":"Commit SHA or ref (default: HEAD)"}}}}
]}"#;

pub const GIT_2: &'static str = r#"{"tools":[
{"name":"git_init","description":"Initializes a new empty Git repository.","inputSchema":{"type":"object","properties":{"repo_path":{"type":"string","description":"Directory path to initialize"}}}},
{"name":"validate_commit_message","description":"Validates a commit message against character length constraints and Conventional Commits formatting rules.","inputSchema":{"type":"object","properties":{"message":{"type":"string","description":"The full commit message (subject and optional body) to validate"},"max_subject_length":{"type":"integer","description":"Maximum allowed character count for the subject line (default: 72)"},"conventional":{"type":"boolean","description":"Whether to enforce Conventional Commits format (e.g. feat:, fix:) (default: false)"}},"required":["message"]}}
]}"#;

pub const IMAGE: &'static str = r#"{"tools":[
{"name":"inspect_image_gallery","description":"Scans albums, artist profiles, or social posts (Reddit, Instagram, Imgur, Pixiv) with cookie dir auto-matching.","inputSchema":{"type":"object","properties":{"url":{"type":"string","description":"Gallery or post URL"},"cookiesDir":{"type":"string","description":"Directory containing site cookie files (e.g. reddit.txt, cookies.txt)"},"cookiesFromBrowser":{"type":"string","description":"Browser to load session cookies from"},"cookiesFile":{"type":"string","description":"Explicit path to a cookies.txt file"},"proxy":{"type":"string","description":"HTTP/HTTPS/SOCKS proxy URL"}},"required":["url"]}},
{"name":"download_image_collection","description":"Downloads image galleries, multi-image posts, or artist boards with cookie dir auto-matching.","inputSchema":{"type":"object","properties":{"url":{"type":"string","description":"Gallery URL"},"filterRange":{"type":"string","description":"Range of items to download (e.g. '1-10')"},"outputDirectory":{"type":"string","description":"Target directory for saved images"},"cookiesDir":{"type":"string","description":"Directory containing site cookie files (e.g. reddit.txt, cookies.txt)"},"cookiesFromBrowser":{"type":"string","description":"Browser to load session cookies from"},"cookiesFile":{"type":"string","description":"Explicit path to a cookies.txt file"},"proxy":{"type":"string","description":"HTTP/HTTPS/SOCKS proxy URL"}},"required":["url"]}},
{"name":"compare_images","description":"Compares two images pixel-by-pixel and generates a visual difference image showing mismatches. Supports multiple algorithms (RMS for exact match, MSSIM for structural similarity, perceptual for human-perceived differences).","inputSchema":{"type":"object","properties":{"image1_path":{"type":"string","description":"Path to the first image file (PNG, JPEG, GIF, SVG or WebP)"},"image2_path":{"type":"string","description":"Path to the second image file (PNG, JPEG, GIF, SVG or WebP)"},"output_path":{"type":"string","description":"Path for the difference image output. Defaults to './diff.png'."},"algorithm":{"type":"string","description":"Comparison algorithm: 'rms' (pixel-by-pixel exact match), 'mssim' (structural similarity), 'perceptual' (human-perceived differences). Defaults to 'rms'."},"threshold":{"type":"number","description":"Threshold for considering pixels different (0.0-1.0). Lower = more strict. Defaults to 0.0 (exact match)."}},"required":["image1_path","image2_path"]}}
]}"#;

pub const MEDIA_1: &'static str = r#"{"tools":[
{"name":"verify_downloader_environment","description":"Probes host system for yt-dlp, gallery-dl, ffmpeg, aria2c, streamlink, and spotdl.","inputSchema":{"type":"object","properties":{}}},
{"name":"inspect_video_metadata","description":"Extracts video/audio title, formats, duration, upload date, age limit, and thumbnail with cookie dir auto-matching.","inputSchema":{"type":"object","properties":{"url":{"type":"string","description":"URL of the video stream"},"cookiesDir":{"type":"string","description":"Directory containing site cookie files (e.g. youtube.txt, reddit.txt, cookies.txt)"},"cookiesFromBrowser":{"type":"string","description":"Browser to load session cookies from (e.g. 'chrome', 'firefox', 'edge', 'brave')"},"cookiesFile":{"type":"string","description":"Explicit path to a cookies.txt file"},"playerClient":{"type":"string","description":"YouTube player client spoofing (e.g. 'android', 'web', 'ios', 'tv')"},"proxy":{"type":"string","description":"HTTP/HTTPS/SOCKS proxy URL"}},"required":["url"]}},
{"name":"download_video_stream","description":"Fetches video streams with resolution capping, subtitle embedding, and cookie dir auto-matching.","inputSchema":{"type":"object","properties":{"url":{"type":"string","description":"URL of the video stream"},"maxResolution":{"type":"string","enum":["480p","720p","1080p","1440p","2160p"],"default":"1080p","description":"Maximum video resolution to download"},"writeSubtitles":{"type":"boolean","default":false,"description":"Whether to download and embed subtitles"},"subtitlesLang":{"type":"string","default":"en","description":"Subtitle language code (e.g. 'en', 'es')"},"outputDirectory":{"type":"string","description":"Target download directory"},"cookiesDir":{"type":"string","description":"Directory containing site cookie files (e.g. youtube.txt, reddit.txt, cookies.txt)"},"cookiesFromBrowser":{"type":"string","description":"Browser to load session cookies from (e.g. 'chrome', 'firefox', 'edge', 'brave')"},"cookiesFile":{"type":"string","description":"Explicit path to a cookies.txt file"},"playerClient":{"type":"string","description":"YouTube player client spoofing (e.g. 'android', 'web', 'ios', 'tv')"},"proxy":{"type":"string","description":"HTTP/HTTPS/SOCKS proxy URL"}},"required":["url"]}}
]}"#;

pub const MEDIA_2: &'static str = r#"{"tools":[
{"name":"download_video_playlist","description":"Downloads video playlists or channels in batches with range and cookie dir auto-matching.","inputSchema":{"type":"object","properties":{"url":{"type":"string","description":"URL of the playlist"},"startIndex":{"type":"integer","default":1,"description":"Index of the first playlist item to download"},"endIndex":{"type":"integer","description":"Index of the last playlist item to download"},"maxVideos":{"type":"integer","description":"Maximum number of playlist videos to download"},"outputDirectory":{"type":"string","description":"Target download directory"},"cookiesDir":{"type":"string","description":"Directory containing site cookie files (e.g. youtube.txt, reddit.txt, cookies.txt)"},"cookiesFromBrowser":{"type":"string","description":"Browser to load session cookies from (e.g. 'chrome', 'firefox', 'edge', 'brave')"},"cookiesFile":{"type":"string","description":"Explicit path to a cookies.txt file"},"playerClient":{"type":"string","description":"YouTube player client spoofing (e.g. 'android', 'web', 'ios', 'tv')"}},"required":["url"]}},
{"name":"record_live_stream","description":"Captures live broadcasts (Twitch, Kick, YouTube Live) for a set duration via streamlink.","inputSchema":{"type":"object","properties":{"url":{"type":"string","description":"Live stream URL"},"durationMinutes":{"type":"integer","default":5,"description":"Duration in minutes to record the stream"},"quality":{"type":"string","enum":["best","1080p","720p","480p","audio_only"],"default":"best","description":"Stream quality preset to record"},"outputDirectory":{"type":"string","description":"Target output directory for recorded files"}},"required":["url"]}},
{"name":"extract_audio_track","description":"Extracts and converts audio from video links into MP3, FLAC, M4A, or Opus with cookie dir auto-matching.","inputSchema":{"type":"object","properties":{"url":{"type":"string","description":"Video/Audio stream URL"},"audioFormat":{"type":"string","enum":["mp3","flac","wav","m4a","opus"],"default":"mp3","description":"Target audio format conversion"},"audioQuality":{"type":"integer","enum":[0,1,2,3,4,5,6,7,8,9],"default":0,"description":"Audio quality compression (0 is highest quality, 9 is lowest)"},"outputDirectory":{"type":"string","description":"Target output directory for converted audio"},"cookiesDir":{"type":"string","description":"Directory containing site cookie files (e.g. youtube.txt, reddit.txt, cookies.txt)"},"cookiesFromBrowser":{"type":"string","description":"Browser to load session cookies from (e.g. 'chrome', 'firefox', 'edge', 'brave')"},"cookiesFile":{"type":"string","description":"Explicit path to a cookies.txt file"}},"required":["url"]}}
]}"#;

pub const MEDIA_3: &'static str = r#"{"tools":[
{"name":"download_music_track","description":"Fetches tracks, albums, or playlists from Spotify/Apple Music with ID3 metadata via spotdl.","inputSchema":{"type":"object","properties":{"url":{"type":"string","description":"Spotify or Apple Music URL"},"includeLyrics":{"type":"boolean","default":false,"description":"Whether to generate and download synced LRC lyrics"},"outputDirectory":{"type":"string","description":"Target directory for downloaded music files"}},"required":["url"]}},
{"name":"inspect_image_gallery","description":"Scans albums, artist profiles, or social posts (Reddit, Instagram, Imgur, Pixiv) with cookie dir auto-matching.","inputSchema":{"type":"object","properties":{"url":{"type":"string","description":"Gallery or post URL"},"cookiesDir":{"type":"string","description":"Directory containing site cookie files (e.g. reddit.txt, cookies.txt)"},"cookiesFromBrowser":{"type":"string","description":"Browser to load session cookies from"},"cookiesFile":{"type":"string","description":"Explicit path to a cookies.txt file"},"proxy":{"type":"string","description":"HTTP/HTTPS/SOCKS proxy URL"}},"required":["url"]}},
{"name":"download_image_collection","description":"Downloads image galleries, multi-image posts, or artist boards with cookie dir auto-matching.","inputSchema":{"type":"object","properties":{"url":{"type":"string","description":"Gallery URL"},"filterRange":{"type":"string","description":"Range of items to download (e.g. '1-10')"},"outputDirectory":{"type":"string","description":"Target directory for saved images"},"cookiesDir":{"type":"string","description":"Directory containing site cookie files (e.g. reddit.txt, cookies.txt)"},"cookiesFromBrowser":{"type":"string","description":"Browser to load session cookies from"},"cookiesFile":{"type":"string","description":"Explicit path to a cookies.txt file"},"proxy":{"type":"string","description":"HTTP/HTTPS/SOCKS proxy URL"}},"required":["url"]}},
{"name":"download_direct_file","description":"Accelerated multi-connection segmented download for direct HTTP/HTTPS/FTP URLs via aria2c.","inputSchema":{"type":"object","properties":{"url":{"type":"string","description":"Direct file URL"},"connectionsPerServer":{"type":"integer","default":8,"description":"Number of parallel connections per server"},"outputFilename":{"type":"string","description":"Custom destination filename"},"outputDirectory":{"type":"string","description":"Target download directory"}},"required":["url"]}},
{"name":"download_torrent_magnet","description":"Fetches files from .torrent files or magnet: URIs with rate limiting via aria2c.","inputSchema":{"type":"object","properties":{"uri":{"type":"string","description":"Magnet URI or path to .torrent file"},"maxDownloadSpeed":{"type":"string","description":"Max speed limit (e.g. '5M', '500K')"},"outputDirectory":{"type":"string","description":"Target download directory"}},"required":["uri"]}}
]}"#;

pub const MEDIA_4: &'static str = r#"{"tools":[
{"name":"trim_media_clip","description":"Crops or trims video/audio files between timestamps with lossless stream-copying via ffmpeg.","inputSchema":{"type":"object","properties":{"inputFile":{"type":"string","description":"Source audio/video file path"},"startTime":{"type":"string","description":"Start timestamp (HH:MM:SS or SS)"},"endTime":{"type":"string","description":"End timestamp (HH:MM:SS or SS)"},"lossless":{"type":"boolean","default":true,"description":"Whether to perform lossless stream copying without re-encoding"},"outputFile":{"type":"string","description":"Destination file path"}},"required":["inputFile","startTime","endTime"]}}
]}"#;

pub const FS_1: &'static str = r#"{"tools":[
{"name":"read_text_file","description":"Read the complete contents of a file from the file system as text with optional line range head/tail clipping. Only works within allowed directories.","inputSchema":{"type":"object","properties":{"path":{"type":"string","description":"The file path to read"},"head":{"type":"number","description":"If provided, returns only the first N lines of the file"},"tail":{"type":"number","description":"If provided, returns only the last N lines of the file"}},"required":["path"]}},
{"name":"read_media_file","description":"Read a file and return it as a base64-encoded content block with its MIME type. Image and audio files are returned as image/audio content.","inputSchema":{"type":"object","properties":{"path":{"type":"string","description":"Path to the media/binary file"}},"required":["path"]}},
{"name":"read_multiple_files","description":"Read the contents of multiple files simultaneously.","inputSchema":{"type":"object","properties":{"paths":{"type":"array","items":{"type":"string"},"description":"Array of file paths to read"}},"required":["paths"]}},
{"name":"write_file","description":"Create a new file or completely overwrite an existing file with new content. Handles text content with proper UTF-8 encoding.","inputSchema":{"type":"object","properties":{"path":{"type":"string","description":"The file path to write to"},"content":{"type":"string","description":"The text content to write"}},"required":["path","content"]}},
{"name":"edit_file","description":"Make line-based edits to a text file. Each edit replaces exact line sequences with new content. Returns a git-style diff.","inputSchema":{"type":"object","properties":{"path":{"type":"string","description":"The file path to edit"},"edits":{"type":"array","items":{"type":"object","properties":{"oldText":{"type":"string","description":"Text to search for - must match exactly"},"newText":{"type":"string","description":"Text to replace with"}},"required":["oldText","newText"]}},"dryRun":{"type":"boolean","default":false,"description":"Preview changes using git-style diff format without saving"}},"required":["path","edits"]}},
{"name":"create_directory","description":"Create a new directory or ensure a directory exists, including parent directories.","inputSchema":{"type":"object","properties":{"path":{"type":"string","description":"The directory path to create"}},"required":["path"]}},
{"name":"list_directory","description":"Get a detailed listing of all files and directories in a specified path, with [FILE] and [DIR] prefixes.","inputSchema":{"type":"object","properties":{"path":{"type":"string","description":"The directory path to inspect (defaults to '.')"}},"required":["path"]}}
]}"#;

pub const FS_2: &'static str = r#"{"tools":[
{"name":"list_directory_with_sizes","description":"Get a detailed listing of all files and directories in a specified path with sizes and sort options.","inputSchema":{"type":"object","properties":{"path":{"type":"string","description":"The directory path to inspect"},"sortBy":{"type":"string","enum":["name","size"],"default":"name","description":"Sort entries by name or size"}},"required":["path"]}},
{"name":"directory_tree","description":"Get a recursive tree view of files and directories as a JSON structure.","inputSchema":{"type":"object","properties":{"path":{"type":"string","description":"The directory root path"},"excludePatterns":{"type":"array","items":{"type":"string"},"default":[],"description":"Glob patterns to exclude"}},"required":["path"]}},
{"name":"move_file","description":"Move or rename files and directories safely. If destination exists, the operation will fail.","inputSchema":{"type":"object","properties":{"source":{"type":"string","description":"Source path"},"destination":{"type":"string","description":"Destination path"}},"required":["source","destination"]}},
{"name":"search_files","description":"Recursively search for files and directories matching a glob pattern.","inputSchema":{"type":"object","properties":{"path":{"type":"string","description":"Root path to search within"},"pattern":{"type":"string","description":"Glob pattern (e.g. '*.rs', '**/*.json')"},"excludePatterns":{"type":"array","items":{"type":"string"},"default":[],"description":"Patterns to ignore"}},"required":["path","pattern"]}},
{"name":"get_file_info","description":"Retrieve comprehensive metadata about a file or directory including size, created/modified timestamps, and permissions.","inputSchema":{"type":"object","properties":{"path":{"type":"string","description":"Path to inspect"}},"required":["path"]}},
{"name":"list_allowed_directories","description":"Returns the list of directories that this server is allowed to access.","inputSchema":{"type":"object","properties":{}}}
]}"#;

} // verus!
