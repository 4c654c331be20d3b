//! The fixed text of the rendered page, in the order in which it stands
//! between the fields.

use vstd::prelude::*;

verus! {

/// The page up to the title.
pub const PAGE_HEAD: &'static str = r#"<!doctype html>
<html>
<head>
  <meta charset="utf-8">
  <meta name="viewport" content="width=device-width, initial-scale=1">
  <title>Judgeman</title>
  <style>
    body {
        font-family: 'Arial', sans-serif;
        background-color: #f8f8f8;
        color: #333;
        margin: 0;
        padding: 0;
    }

    header {
        background-color: #333;
        color: #fff;
        text-align: center;
        padding: 1em;
        position: sticky;
        top: 0;
        z-index: 10;
    }

    #toggleButton {
      background-color: #4CAF50;
      color: white;
      cursor: pointer;
      border: none;
      border-radius: 5px;
      padding: 0.5em 0.8em;
      margin-left: 1em;
    }

    #toggleButton:hover {
      background-color: #316935;
    }

    main {
        max-width: 800px;
        margin: 2em auto;
        padding: 1em;
        background-color: #fff;
        box-shadow: 0 0 10px rgba(0, 0, 0, 0.1);
    }

    .line {
        margin-bottom: 1em;
        border-bottom: 1px solid #ccc;
        padding-bottom: 0.5em;
    }

    details {
        margin-bottom: 1em;
    }

    summary {
        cursor: pointer;
        font-weight: bold;
        border-bottom: 1px solid #ccc;
        padding-bottom: 0.5em;
        margin-bottom: 0.5em;
        outline: none;
    }

    details > p {
        margin-top: 0;
    }

    .github-credit {
        position: fixed;
        bottom: 10px;
        right: 10px;
        font-size: 12px;
        color: #555;
    }

    #originalFrame {
        width: 100%;
        height: calc(100vh - 80px);
        border: 0;
    }
  </style>
</head>
<body>
  <header>
    <span id="dynamic-header">"#;

/// From the title to the case number.
pub const BEFORE_NUMBER: &'static str = r#"</span>
    <button id="toggleButton">Toggle Page</button>
  </header>

  <div id="simplifiedContainer">
    <main id="dynamic-body">
      <div class="line"><b>Case number:</b> "#;

/// From the case number to the date.
pub const BEFORE_DATE: &'static str = r#"</div>
      <div class="line"><b>Date: </b> "#;

/// From the date to the tribunal or court.
pub const BEFORE_TRIBUNAL: &'static str = r#"</div>
      <div class="line"><b>Tribunal / Court: </b> "#;

/// From the tribunal or court to the coram.
pub const BEFORE_CORAM: &'static str = r#"</div>
      <div class="line"><b>Coram: </b> "#;

/// From the coram to the counsel.
pub const BEFORE_COUNSEL: &'static str = r#"</div>
      <div class="line"><b>Counsel: </b> "#;

/// From the counsel to the parties.
pub const BEFORE_PARTIES: &'static str = r#"</div>
      <div class="line"><b>Parties: </b> "#;

/// From the parties to the list of legal issues.
pub const BEFORE_ISSUES: &'static str = r#"</div>
      <div class="line"><b>Legal issues: </b><ul>"#;

/// From the list of legal issues to the sections of the body.
pub const BEFORE_SECTIONS: &'static str = r#"</ul></div>

      "#;

/// From the sections of the body to the payload in the script.
pub const BEFORE_PAYLOAD: &'static str = r#"
    </main>

    <div class="github-credit">
      Designed and built by <a href="https://gongahkia.github.io/">Gabriel Ong</a> | <a href="https://github.com/gongahkia/judgeman">Source</a>
    </div>
  </div>

  <div id="originalContainer" style="display:none">
    <iframe id="originalFrame" sandbox="allow-forms allow-modals allow-popups allow-same-origin allow-scripts"></iframe>
  </div>

  <script>
    const originalHtmlBase64 = '"#;

/// The page after the payload and the quote and semicolon that close it.
pub const PAGE_TAIL: &'static str = r#"
    const bytes = Uint8Array.from(atob(originalHtmlBase64), c => c.charCodeAt(0));
    const originalHtml = new TextDecoder('utf-8').decode(bytes);
    const originalFrame = document.getElementById('originalFrame');
    originalFrame.srcdoc = originalHtml;

    let simplified = true;
    document.getElementById('toggleButton').addEventListener('click', () => {
      simplified = !simplified;
      document.getElementById('simplifiedContainer').style.display = simplified ? '' : 'none';
      document.getElementById('originalContainer').style.display = simplified ? 'none' : '';
    });
  </script>
</body>
</html>
"#;

} // verus!
