//! The starter patch directory.

use vstd::prelude::*;
use vstd::utf8::encode_utf8;

use crate::paths::{join_path, joined, Platform};
use crate::replacement::{replacements_view, FileReplacement, ReplacementView};
use crate::text::{chars_of, opt_text, result_text};

verus! {

pub const QUICKSTART_CONFIG: &'static str = "schema = 1\nbranch = \"stable\"\ntarget = \"official-native\"\nfailure_mode = \"error\"\nnoninteractive_pending = \"auto\"\n";

pub const QUICKSTART_SERIES: &'static str = "status-line.patch\n";

pub const QUICKSTART_STATUS_PATCH: &'static str = "diff --git a/codex-rs/tui/src/status/card.rs b/codex-rs/tui/src/status/card.rs
--- a/codex-rs/tui/src/status/card.rs
+++ b/codex-rs/tui/src/status/card.rs
@@ -744,6 +744,7 @@ impl StatusCard {
         if self.model_provider.is_some() {
             push_label(&mut labels, &mut seen, \"Model provider\");
         }
+        push_label(&mut labels, &mut seen, \"Codex Patcher\");
         if account_value.is_some() {
             push_label(&mut labels, &mut seen, \"Account\");
         }
@@ -831,6 +832,10 @@ impl StatusCard {
         lines.push(formatter.line(\"Directory\", vec![Span::from(directory_value)]));
         lines.push(formatter.line(\"Permissions\", vec![Span::from(self.permissions.clone())]));
         lines.push(formatter.line(\"Agents.md\", vec![Span::from(agents_summary)]));
+        lines.push(formatter.line(
+            \"Codex Patcher\",
+            vec![Span::from(\"quickstart patch is in\")],
+        ));
 
         if let Some(account_value) = account_value {
             lines.push(formatter.line(\"Account\", vec![Span::from(account_value)]));
";

pub const QUICKSTART_AGENTS: &'static str = "# codex-patcher Patch Directory

This directory is managed by codex-patcher: https://github.com/arm64be/codex-patcher

Keep `codex-patcher.toml`, `series`, and every `*.patch` file in this directory
small and reviewable. The `series` file is the patch order; list every patch
there, one relative path per line.

Use this workflow:

1. Edit or add patch files here.
2. Run `codex-patcher update --retry` to rebuild the patched Codex generation.
3. Run `/status` in Codex and check the `Codex Patcher` line when using the
   starter patch.

Avoid symlinks, absolute paths, path traversal, duplicate patch names, and
case-only filename differences. codex-patcher rejects those inputs so the same
patch stack behaves consistently across Linux, macOS, and Windows.
";

/// Where the starter directory is: below `CODEX_HOME`, or below `.codex` in the home
/// directory.
pub open spec fn starter_dir(
    platform: Platform,
    codex_home: Option<Seq<char>>,
    home: Option<Seq<char>>,
) -> Result<Seq<char>, Seq<char>> {
    if codex_home is Some && codex_home->0.len() > 0 {
        Ok(join_path(platform, codex_home->0, "codex-patcher"@))
    } else {
        match home {
            Some(dir) => Ok(
                join_path(platform, join_path(platform, dir, ".codex"@), "codex-patcher"@),
            ),
            None => Err("locating home directory for default CODEX_HOME"@),
        }
    }
}

pub fn quickstart_patch_dir(
    platform: Platform,
    codex_home: &Option<String>,
    home: &Option<String>,
) -> (r: Result<String, String>)
    ensures
        result_text(r) == starter_dir(platform, opt_text(*codex_home), opt_text(*home)),
{
    if let Some(dir) = codex_home {
        if chars_of(dir.as_str()).len() > 0 {
            return Ok(joined(platform, dir.as_str(), "codex-patcher"));
        }
    }
    match home {
        Some(dir) => Ok(
            joined(platform, joined(platform, dir.as_str(), ".codex").as_str(), "codex-patcher"),
        ),
        None => Err("locating home directory for default CODEX_HOME".to_owned()),
    }
}

/// The patch directory to install: the one that was given, or the starter directory.
pub fn install_patch_dir(
    platform: Platform,
    given: &Option<String>,
    codex_home: &Option<String>,
    home: &Option<String>,
) -> (r: Result<String, String>)
    ensures
        result_text(r) == (match opt_text(*given) {
            Some(dir) => Ok(dir),
            None => starter_dir(platform, opt_text(*codex_home), opt_text(*home)),
        }),
{
    match given {
        Some(dir) => Ok(dir.clone()),
        None => quickstart_patch_dir(platform, codex_home, home),
    }
}

pub open spec fn starter_files() -> Seq<ReplacementView> {
    seq![
        ReplacementView {
            relative_path: "codex-patcher.toml"@,
            contents: Some(encode_utf8(QUICKSTART_CONFIG@)),
        },
        ReplacementView {
            relative_path: "series"@,
            contents: Some(encode_utf8(QUICKSTART_SERIES@)),
        },
        ReplacementView {
            relative_path: "status-line.patch"@,
            contents: Some(encode_utf8(QUICKSTART_STATUS_PATCH@)),
        },
        ReplacementView {
            relative_path: "AGENTS.md"@,
            contents: Some(encode_utf8(QUICKSTART_AGENTS@)),
        },
    ]
}

fn starter_file(name: &str, text: &str) -> (r: FileReplacement)
    ensures
        r@ == (ReplacementView { relative_path: name@, contents: Some(encode_utf8(text@)) }),
{
    FileReplacement::write(name, vstd::slice::slice_to_vec(text.as_bytes()))
}

/// The files of the starter directory, in the order in which they are written.
pub fn quickstart_files() -> (r: Vec<FileReplacement>)
    ensures
        replacements_view(r@) == starter_files(),
{
    let files = vec![
        starter_file("codex-patcher.toml", QUICKSTART_CONFIG),
        starter_file("series", QUICKSTART_SERIES),
        starter_file("status-line.patch", QUICKSTART_STATUS_PATCH),
        starter_file("AGENTS.md", QUICKSTART_AGENTS),
    ];
    proof {
        assert(replacements_view(files@) =~= starter_files());
    }
    files
}

} // verus!
