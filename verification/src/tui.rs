//! Codex-style terminal views used by the dispatcher.
//!
//! UI is always written to stderr: stdout may be an app-server or MCP protocol
//! stream. `render_*_80x12` functions are pure and contain no ANSI escapes of
//! their own.

use vstd::prelude::*;
use vstd::utf8::{encode_utf8, is_char_boundary};

use crate::text::{
    chars_of, decimal, decimal_text, is_control, is_control_char, join, join_texts,
    lemma_texts_push, opt_text, same, texts,
};
use crate::types::copy_opt;

verus! {

pub const SNAPSHOT_WIDTH: usize = 80;

pub const SNAPSHOT_HEIGHT: usize = 12;

#[derive(Debug, Clone, Copy, PartialEq, Eq, Structural)]
pub struct RenderOptions {
    pub color: bool,
    pub ascii: bool,
}

impl RenderOptions {
    /// The options that the environment asks for: `NO_COLOR`, `CODEX_PATCHER_ASCII`, and a
    /// `TERM` of `dumb`.
    pub fn from_settings(no_color: bool, ascii: bool, term_is_dumb: bool) -> (r: Self)
        ensures
            r.color == (!no_color && !term_is_dumb),
            r.ascii == (ascii || term_is_dumb),
    {
        RenderOptions { color: !no_color && !term_is_dumb, ascii: ascii || term_is_dumb }
    }

    pub fn plain_ascii() -> (r: Self)
        ensures
            r == (RenderOptions { color: false, ascii: true }),
    {
        RenderOptions { color: false, ascii: true }
    }
}

#[derive(Debug, PartialEq, Eq)]
pub struct UpdateScreen {
    pub current_version: String,
    pub desired_version: String,
    pub current_patch_fingerprint: Option<String>,
    pub desired_patch_fingerprint: Option<String>,
    pub release_url: Option<String>,
}

pub struct UpdateScreenView {
    pub current_version: Seq<char>,
    pub desired_version: Seq<char>,
    pub current_patch_fingerprint: Option<Seq<char>>,
    pub desired_patch_fingerprint: Option<Seq<char>>,
    pub release_url: Option<Seq<char>>,
}

impl View for UpdateScreen {
    type V = UpdateScreenView;

    open spec fn view(&self) -> UpdateScreenView {
        UpdateScreenView {
            current_version: self.current_version@,
            desired_version: self.desired_version@,
            current_patch_fingerprint: opt_text(self.current_patch_fingerprint),
            desired_patch_fingerprint: opt_text(self.desired_patch_fingerprint),
            release_url: opt_text(self.release_url),
        }
    }
}

#[derive(Debug, Clone, Copy, PartialEq, Eq, Structural)]
pub enum UpdateChoice {
    Build,
    Exit,
}

#[derive(Debug, PartialEq, Eq)]
pub struct FailureScreen {
    pub current_version: String,
    pub desired_version: String,
    pub phase: String,
    pub summary: String,
    pub failed_patch_index: Option<usize>,
    pub failed_patch: Option<String>,
    pub log_path: String,
    pub last_good_version: Option<String>,
}

pub struct FailureScreenView {
    pub current_version: Seq<char>,
    pub desired_version: Seq<char>,
    pub phase: Seq<char>,
    pub summary: Seq<char>,
    pub failed_patch_index: Option<usize>,
    pub failed_patch: Option<Seq<char>>,
    pub log_path: Seq<char>,
    pub last_good_version: Option<Seq<char>>,
}

impl View for FailureScreen {
    type V = FailureScreenView;

    open spec fn view(&self) -> FailureScreenView {
        FailureScreenView {
            current_version: self.current_version@,
            desired_version: self.desired_version@,
            phase: self.phase@,
            summary: self.summary@,
            failed_patch_index: self.failed_patch_index,
            failed_patch: opt_text(self.failed_patch),
            log_path: self.log_path@,
            last_good_version: opt_text(self.last_good_version),
        }
    }
}

#[derive(Debug, Clone, Copy, PartialEq, Eq, Structural)]
pub enum FailureChoice {
    Repair,
    Exit,
}

#[derive(Debug, PartialEq, Eq)]
pub struct ProgressScreen {
    pub current_version: String,
    pub desired_version: String,
    pub phase: String,
    pub latest_line: Option<String>,
    pub log_path: Option<String>,
}

pub struct ProgressScreenView {
    pub current_version: Seq<char>,
    pub desired_version: Seq<char>,
    pub phase: Seq<char>,
    pub latest_line: Option<Seq<char>>,
    pub log_path: Option<Seq<char>>,
}

impl View for ProgressScreen {
    type V = ProgressScreenView;

    open spec fn view(&self) -> ProgressScreenView {
        ProgressScreenView {
            current_version: self.current_version@,
            desired_version: self.desired_version@,
            phase: self.phase@,
            latest_line: opt_text(self.latest_line),
            log_path: opt_text(self.log_path),
        }
    }
}

impl Clone for ProgressScreen {
    fn clone(&self) -> (r: Self)
        ensures
            r@ == self@,
    {
        ProgressScreen {
            current_version: self.current_version.clone(),
            desired_version: self.desired_version.clone(),
            phase: self.phase.clone(),
            latest_line: copy_opt(&self.latest_line),
            log_path: copy_opt(&self.log_path),
        }
    }
}

/// A text with a space in the place of each control character.
pub open spec fn sanitized(s: Seq<char>) -> Seq<char> {
    s.map_values(
        |c: char|
            if is_control(c) {
                ' '
            } else {
                c
            },
    )
}

pub fn sanitize_line(value: &str) -> (r: String)
    ensures
        r@ == sanitized(value@),
{
    let chars = chars_of(value);
    let mut out = String::new();
    let mut i: usize = 0;
    while i < chars.len()
        invariant
            i <= chars@.len(),
            chars@ == value@,
            out@ == sanitized(value@).take(i as int),
        decreases chars@.len() - i,
    {
        let c: char = if is_control_char(chars[i]) { ' ' } else { chars[i] };
        out.push(c);
        proof {
            assert(sanitized(value@).take(i as int + 1) =~= sanitized(value@).take(i as int).push(
                c,
            ));
        }
        i = i + 1;
    }
    proof {
        assert(sanitized(value@).take(value@.len() as int) =~= sanitized(value@));
    }
    out
}

/// Nothing that is shown of a log line can move the cursor or break the line.
pub proof fn sanitized_lines_hold_no_controls(s: Seq<char>)
    ensures
        sanitized(s).len() == s.len(),
        forall|i: int| 0 <= i < s.len() ==> !is_control(#[trigger] sanitized(s)[i]),
{
}

/// The first eight bytes of a fingerprint; all of it, where that would split a character.
pub open spec fn short_form(value: Seq<char>) -> Seq<char> {
    let bytes = encode_utf8(value);
    let n = if bytes.len() < 8 {
        bytes.len() as int
    } else {
        8
    };
    if is_char_boundary(bytes, n) {
        vstd::utf8::decode_utf8(bytes.take(n))
    } else {
        value
    }
}

fn short_fingerprint(value: &str) -> (r: String)
    ensures
        r@ == short_form(value@),
{
    let bytes = value.as_bytes();
    let n: usize = if bytes.len() < 8 { bytes.len() } else { 8 };
    if value.is_char_boundary(n) {
        let (head, _) = value.split_at(n);
        proof {
            vstd::utf8::encode_utf8_decode_utf8(head@);
            assert(encode_utf8(head@) =~= encode_utf8(value@).take(n as int));
        }
        head.to_owned()
    } else {
        value.to_owned()
    }
}

pub open spec fn versions_text(current: Seq<char>, desired: Seq<char>) -> Seq<char> {
    sanitized(current) + " -> "@ + sanitized(desired)
}

/// What changes: the version, and the patch stack where both fingerprints are known and
/// differ.
pub open spec fn transition_text(s: UpdateScreenView) -> Seq<char> {
    let versions = versions_text(s.current_version, s.desired_version);
    match (s.current_patch_fingerprint, s.desired_patch_fingerprint) {
        (Some(current), Some(desired)) => if current != desired {
            versions + "  patches "@ + sanitized(short_form(current)) + " -> "@ + sanitized(
                short_form(desired),
            )
        } else {
            versions
        },
        _ => versions,
    }
}

impl UpdateScreen {
    pub fn new(current_version: &str, desired_version: &str) -> (r: Self)
        ensures
            r@ == (UpdateScreenView {
                current_version: current_version@,
                desired_version: desired_version@,
                current_patch_fingerprint: None,
                desired_patch_fingerprint: None,
                release_url: None,
            }),
    {
        UpdateScreen {
            current_version: current_version.to_owned(),
            desired_version: desired_version.to_owned(),
            current_patch_fingerprint: None,
            desired_patch_fingerprint: None,
            release_url: None,
        }
    }

    fn transition(&self) -> (r: String)
        ensures
            r@ == transition_text(self@),
    {
        let mut out = versions(self.current_version.as_str(), self.desired_version.as_str());
        match (&self.current_patch_fingerprint, &self.desired_patch_fingerprint) {
            (Some(current), Some(desired)) => {
                if !same(current.as_str(), desired.as_str()) {
                    out.append("  patches ");
                    out.append(
                        sanitize_line(short_fingerprint(current.as_str()).as_str()).as_str(),
                    );
                    out.append(" -> ");
                    out.append(
                        sanitize_line(short_fingerprint(desired.as_str()).as_str()).as_str(),
                    );
                }
            },
            _ => {},
        }
        out
    }
}

impl ProgressScreen {
    pub fn new(current_version: &str, desired_version: &str) -> (r: Self)
        ensures
            r@ == (ProgressScreenView {
                current_version: current_version@,
                desired_version: desired_version@,
                phase: "Resolve upstream"@,
                latest_line: None,
                log_path: None,
            }),
    {
        ProgressScreen {
            current_version: current_version.to_owned(),
            desired_version: desired_version.to_owned(),
            phase: "Resolve upstream".to_owned(),
            latest_line: None,
            log_path: None,
        }
    }

    pub fn set_phase(&mut self, phase: &str)
        ensures
            final(self)@ == (ProgressScreenView { phase: sanitized(phase@), ..old(self)@ }),
    {
        self.phase = sanitize_line(phase);
    }

    pub fn set_latest_line(&mut self, line: &str)
        ensures
            final(self)@ == (ProgressScreenView {
                latest_line: Some(sanitized(line@)),
                ..old(self)@
            }),
    {
        self.latest_line = Some(sanitize_line(line));
    }

    pub fn clear_latest_line(&mut self)
        ensures
            final(self)@ == (ProgressScreenView { latest_line: None, ..old(self)@ }),
    {
        self.latest_line = None;
    }
}

/// How a piece of a line is shown. The accent is cyan where colors are used.
#[derive(Debug, Clone, Copy, PartialEq, Eq, Structural)]
pub enum Tone {
    Plain,
    Bold,
    Dim,
    DimUnderlined,
    Accent,
    AccentBold,
}

#[derive(Debug)]
pub struct Piece {
    pub text: String,
    pub tone: Tone,
}

pub open spec fn piece_view(p: Piece) -> (Seq<char>, Tone) {
    (p.text@, p.tone)
}

pub open spec fn pieces_view(v: Seq<Piece>) -> Seq<(Seq<char>, Tone)> {
    v.map_values(|p: Piece| piece_view(p))
}

pub open spec fn screen_view(v: Seq<Vec<Piece>>) -> Seq<Seq<(Seq<char>, Tone)>> {
    v.map_values(|l: Vec<Piece>| pieces_view(l@))
}

/// The text of a line.
pub open spec fn line_text(line: Seq<(Seq<char>, Tone)>) -> Seq<char>
    decreases line.len(),
{
    if line.len() == 0 {
        Seq::empty()
    } else {
        line_text(line.drop_last()) + line.last().0
    }
}

fn blank() -> (r: Vec<Piece>)
    ensures
        pieces_view(r@) == Seq::<(Seq<char>, Tone)>::empty(),
{
    let r: Vec<Piece> = Vec::new();
    proof {
        assert(pieces_view(r@) =~= Seq::empty());
    }
    r
}

fn piece(text: &str, tone: Tone) -> (r: Piece)
    ensures
        piece_view(r) == (text@, tone),
{
    Piece { text: text.to_owned(), tone }
}

fn line1(a: Piece) -> (r: Vec<Piece>)
    ensures
        pieces_view(r@) == seq![piece_view(a)],
{
    let r = vec![a];
    proof {
        assert(pieces_view(r@) =~= seq![piece_view(a)]);
    }
    r
}

fn line2(a: Piece, b: Piece) -> (r: Vec<Piece>)
    ensures
        pieces_view(r@) == seq![piece_view(a), piece_view(b)],
{
    let r = vec![a, b];
    proof {
        assert(pieces_view(r@) =~= seq![piece_view(a), piece_view(b)]);
    }
    r
}

fn line3(a: Piece, b: Piece, c: Piece) -> (r: Vec<Piece>)
    ensures
        pieces_view(r@) == seq![piece_view(a), piece_view(b), piece_view(c)],
{
    let r = vec![a, b, c];
    proof {
        assert(pieces_view(r@) =~= seq![piece_view(a), piece_view(b), piece_view(c)]);
    }
    r
}

fn line4(a: Piece, b: Piece, c: Piece, d: Piece) -> (r: Vec<Piece>)
    ensures
        pieces_view(r@) == seq![piece_view(a), piece_view(b), piece_view(c), piece_view(d)],
{
    let r = vec![a, b, c, d];
    proof {
        assert(pieces_view(r@) =~= seq![
            piece_view(a),
            piece_view(b),
            piece_view(c),
            piece_view(d),
        ]);
    }
    r
}

pub open spec fn marker_text(ascii: bool) -> Seq<char> {
    if ascii {
        ">"@
    } else {
        "›"@
    }
}

fn marker(options: RenderOptions) -> (r: &'static str)
    ensures
        r@ == marker_text(options.ascii),
{
    if options.ascii {
        ">"
    } else {
        "›"
    }
}

pub open spec fn update_icon_text(ascii: bool) -> Seq<char> {
    if ascii {
        "*"@
    } else {
        "✨"@
    }
}

fn update_icon(options: RenderOptions) -> (r: &'static str)
    ensures
        r@ == update_icon_text(options.ascii),
{
    if options.ascii {
        "*"
    } else {
        "✨"
    }
}

pub open spec fn failure_icon_text(ascii: bool) -> Seq<char> {
    if ascii {
        "!"@
    } else {
        "⚠"@
    }
}

/// One entry of a menu; the selected one carries the marker.
pub open spec fn menu_line(ascii: bool, number: nat, label: Seq<char>, selected: bool) -> Seq<
    (Seq<char>, Tone),
> {
    let entry = " "@ + decimal(number) + ". "@ + label;
    if selected {
        seq![(marker_text(ascii), Tone::Accent), (entry, Tone::Plain)]
    } else {
        seq![(" "@ + entry, Tone::Plain)]
    }
}

fn selection_line(options: RenderOptions, number: usize, label: &str, selected: bool) -> (r: Vec<
    Piece,
>)
    ensures
        pieces_view(r@) == menu_line(options.ascii, number as nat, label@, selected),
{
    let mut entry = " ".to_owned();
    entry.append(decimal_text(number as u64).as_str());
    entry.append(". ");
    entry.append(label);
    if selected {
        line2(piece(marker(options), Tone::Accent), Piece { text: entry, tone: Tone::Plain })
    } else {
        let mut text = " ".to_owned();
        text.append(entry.as_str());
        line1(Piece { text, tone: Tone::Plain })
    }
}

/// The heading of a screen.
pub open spec fn heading(icon: Seq<char>, title: Seq<char>, detail: Seq<char>) -> Seq<
    (Seq<char>, Tone),
> {
    seq![
        ("  "@ + icon + " "@, Tone::AccentBold),
        (title, Tone::Bold),
        (" "@, Tone::Plain),
        (detail, Tone::Dim),
    ]
}

fn heading_line(icon: &str, title: &str, detail: String) -> (r: Vec<Piece>)
    ensures
        pieces_view(r@) == heading(icon@, title@, detail@),
{
    let mut lead = "  ".to_owned();
    lead.append(icon);
    lead.append(" ");
    line4(
        Piece { text: lead, tone: Tone::AccentBold },
        piece(title, Tone::Bold),
        piece(" ", Tone::Plain),
        Piece { text: detail, tone: Tone::Dim },
    )
}

pub open spec fn no_line() -> Seq<(Seq<char>, Tone)> {
    Seq::empty()
}

/// The update prompt.
pub open spec fn update_screen_lines(s: UpdateScreenView, selected: nat, ascii: bool) -> Seq<
    Seq<(Seq<char>, Tone)>,
> {
    let link = match s.release_url {
        Some(url) => sanitized(url),
        None => "https://github.com/openai/codex/releases"@,
    };
    seq![
        no_line(),
        heading(update_icon_text(ascii), "Update available!"@, transition_text(s)),
        no_line(),
        seq![("  Release notes: "@, Tone::Dim), (link, Tone::DimUnderlined)],
        no_line(),
        menu_line(ascii, 1, "Build patched update now"@, selected == 0),
        menu_line(ascii, 2, "Exit"@, selected == 1),
        no_line(),
        seq![("  Press "@, Tone::Dim), ("Enter"@, Tone::Plain), (" to continue"@, Tone::Dim)],
    ]
}

pub fn update_styled_lines(screen: &UpdateScreen, selected: usize, options: RenderOptions) -> (r:
    Vec<Vec<Piece>>)
    ensures
        screen_view(r@) == update_screen_lines(screen@, selected as nat, options.ascii),
{
    let link = match &screen.release_url {
        Some(url) => sanitize_line(url.as_str()),
        None => "https://github.com/openai/codex/releases".to_owned(),
    };
    let r = vec![
        blank(),
        heading_line(update_icon(options), "Update available!", screen.transition()),
        blank(),
        line2(piece("  Release notes: ", Tone::Dim), piece(link.as_str(), Tone::DimUnderlined)),
        blank(),
        selection_line(options, 1, "Build patched update now", selected == 0),
        selection_line(options, 2, "Exit", selected == 1),
        blank(),
        line3(
            piece("  Press ", Tone::Dim),
            piece("Enter", Tone::Plain),
            piece(" to continue", Tone::Dim),
        ),
    ];
    proof {
        assert(screen_view(r@) =~= update_screen_lines(screen@, selected as nat, options.ascii));
    }
    r
}

pub open spec fn plain_line(text: Seq<char>) -> Seq<(Seq<char>, Tone)> {
    seq![(text, Tone::Plain)]
}

pub open spec fn log_line(path: Seq<char>) -> Seq<(Seq<char>, Tone)> {
    seq![("  Log: "@, Tone::Dim), (sanitized(path), Tone::Dim)]
}

pub open spec fn patch_label(index: Option<usize>) -> Seq<char> {
    match index {
        Some(n) => "Patch "@ + decimal(n as nat),
        None => "Patch"@,
    }
}

pub open spec fn failed_patch_lines(s: FailureScreenView) -> Seq<Seq<(Seq<char>, Tone)>> {
    match s.failed_patch {
        Some(patch) => seq![
            plain_line("  "@ + patch_label(s.failed_patch_index) + ": "@ + sanitized(patch)),
        ],
        None => Seq::empty(),
    }
}

pub open spec fn failure_menu(s: FailureScreenView, selected: nat, ascii: bool) -> Seq<
    Seq<(Seq<char>, Tone)>,
> {
    match s.last_good_version {
        Some(version) => seq![
            menu_line(
                ascii,
                1,
                "Repair with last-good Codex "@ + sanitized(version),
                selected == 0,
            ),
            menu_line(ascii, 2, "Exit"@, selected == 1),
        ],
        None => seq![menu_line(ascii, 1, "Exit"@, true)],
    }
}

/// The failure prompt. Repair is only offered with a last-good generation.
pub open spec fn failure_screen_lines(s: FailureScreenView, selected: nat, ascii: bool) -> Seq<
    Seq<(Seq<char>, Tone)>,
> {
    seq![
        no_line(),
        heading(
            failure_icon_text(ascii),
            "Patched update failed"@,
            versions_text(s.current_version, s.desired_version),
        ),
        no_line(),
        plain_line("  Phase: "@ + sanitized(s.phase)),
    ] + failed_patch_lines(s) + seq![
        plain_line("  "@ + sanitized(s.summary)),
        log_line(s.log_path),
        no_line(),
    ] + failure_menu(s, selected, ascii)
}

fn versions(current: &str, desired: &str) -> (r: String)
    ensures
        r@ == versions_text(current@, desired@),
{
    let mut out = sanitize_line(current);
    out.append(" -> ");
    out.append(sanitize_line(desired).as_str());
    out
}

pub fn failure_styled_lines(screen: &FailureScreen, selected: usize, options: RenderOptions) -> (r:
    Vec<Vec<Piece>>)
    ensures
        screen_view(r@) == failure_screen_lines(screen@, selected as nat, options.ascii),
{
    let icon = if options.ascii { "!" } else { "⚠" };
    let mut phase = "  Phase: ".to_owned();
    phase.append(sanitize_line(screen.phase.as_str()).as_str());
    let mut lines = vec![
        blank(),
        heading_line(
            icon,
            "Patched update failed",
            versions(screen.current_version.as_str(), screen.desired_version.as_str()),
        ),
        blank(),
        line1(Piece { text: phase, tone: Tone::Plain }),
    ];
    let ghost head = screen_view(lines@);
    if let Some(patch) = &screen.failed_patch {
        let mut text = "  ".to_owned();
        let mut label = "Patch".to_owned();
        match screen.failed_patch_index {
            Some(index) => {
                label = "Patch ".to_owned();
                label.append(decimal_text(index as u64).as_str());
            },
            None => {},
        }
        text.append(label.as_str());
        text.append(": ");
        text.append(sanitize_line(patch.as_str()).as_str());
        lines.push(line1(Piece { text, tone: Tone::Plain }));
    }
    proof {
        assert(screen_view(lines@) =~= head + failed_patch_lines(screen@));
    }
    let mut summary = "  ".to_owned();
    summary.append(sanitize_line(screen.summary.as_str()).as_str());
    lines.push(line1(Piece { text: summary, tone: Tone::Plain }));
    lines.push(
        line2(
            piece("  Log: ", Tone::Dim),
            Piece { text: sanitize_line(screen.log_path.as_str()), tone: Tone::Dim },
        ),
    );
    lines.push(blank());
    let ghost upper = screen_view(lines@);
    proof {
        assert(upper =~= head + failed_patch_lines(screen@) + seq![
            plain_line("  "@ + sanitized(screen.summary@)),
            log_line(screen.log_path@),
            no_line(),
        ]);
    }
    match &screen.last_good_version {
        Some(version) => {
            let mut label = "Repair with last-good Codex ".to_owned();
            label.append(sanitize_line(version.as_str()).as_str());
            lines.push(selection_line(options, 1, label.as_str(), selected == 0));
            lines.push(selection_line(options, 2, "Exit", selected == 1));
        },
        None => {
            lines.push(selection_line(options, 1, "Exit", true));
        },
    }
    proof {
        assert(screen_view(lines@) =~= upper + failure_menu(
            screen@,
            selected as nat,
            options.ascii,
        ));
        assert(head =~= seq![
            no_line(),
            heading(
                failure_icon_text(options.ascii),
                "Patched update failed"@,
                versions_text(screen.current_version@, screen.desired_version@),
            ),
            no_line(),
            plain_line("  Phase: "@ + sanitized(screen.phase@)),
        ]);
    }
    lines
}

pub open spec fn opt_line(line: Option<Seq<char>>) -> Seq<Seq<(Seq<char>, Tone)>> {
    match line {
        Some(text) => seq![plain_line("  "@ + sanitized(text))],
        None => Seq::empty(),
    }
}

pub open spec fn opt_log(path: Option<Seq<char>>) -> Seq<Seq<(Seq<char>, Tone)>> {
    match path {
        Some(p) => seq![no_line(), log_line(p)],
        None => Seq::empty(),
    }
}

/// The progress display.
pub open spec fn progress_screen_lines(s: ProgressScreenView, ascii: bool) -> Seq<
    Seq<(Seq<char>, Tone)>,
> {
    seq![
        no_line(),
        heading(
            update_icon_text(ascii),
            "Building patched Codex"@,
            versions_text(s.current_version, s.desired_version),
        ),
        no_line(),
        seq![("  Phase  "@, Tone::Dim), (sanitized(s.phase), Tone::Accent)],
    ] + opt_line(s.latest_line) + opt_log(s.log_path)
}

pub fn progress_styled_lines(
    screen: &ProgressScreen,
    options: RenderOptions,
) -> (r: Vec<Vec<Piece>>)
    ensures
        screen_view(r@) == progress_screen_lines(screen@, options.ascii),
{
    let mut lines = vec![
        blank(),
        heading_line(
            update_icon(options),
            "Building patched Codex",
            versions(screen.current_version.as_str(), screen.desired_version.as_str()),
        ),
        blank(),
        line2(
            piece("  Phase  ", Tone::Dim),
            Piece { text: sanitize_line(screen.phase.as_str()), tone: Tone::Accent },
        ),
    ];
    let ghost head = screen_view(lines@);
    if let Some(line) = &screen.latest_line {
        let mut text = "  ".to_owned();
        text.append(sanitize_line(line.as_str()).as_str());
        lines.push(line1(Piece { text, tone: Tone::Plain }));
    }
    let ghost middle = screen_view(lines@);
    proof {
        assert(middle =~= head + opt_line(screen@.latest_line));
    }
    if let Some(path) = &screen.log_path {
        lines.push(blank());
        lines.push(
            line2(
                piece("  Log: ", Tone::Dim),
                Piece { text: sanitize_line(path.as_str()), tone: Tone::Dim },
            ),
        );
    }
    proof {
        assert(screen_view(lines@) =~= middle + opt_log(screen@.log_path));
        assert(head =~= seq![
            no_line(),
            heading(
                update_icon_text(options.ascii),
                "Building patched Codex"@,
                versions_text(screen.current_version@, screen.desired_version@),
            ),
            no_line(),
            seq![("  Phase  "@, Tone::Dim), (sanitized(screen.phase@), Tone::Accent)],
        ]);
    }
    lines
}

/// The columns that a character takes.
pub open spec fn char_width(c: char) -> nat {
    if c == '✨' {
        2
    } else {
        1
    }
}

fn display_width(c: char) -> (r: usize)
    ensures
        r == char_width(c),
{
    if c == '✨' {
        2
    } else {
        1
    }
}

pub open spec fn spaces(n: nat) -> Seq<char> {
    Seq::new(n, |i: int| ' ')
}

/// As much of `s` as fits into so many columns, filled up with spaces.
pub open spec fn fitted(s: Seq<char>, columns: nat) -> Seq<char>
    decreases s.len(),
{
    if s.len() == 0 || char_width(s[0]) > columns {
        spaces(columns)
    } else {
        seq![s[0]] + fitted(s.drop_first(), (columns - char_width(s[0])) as nat)
    }
}

/// The columns that a text takes.
pub open spec fn text_width(s: Seq<char>) -> nat
    decreases s.len(),
{
    if s.len() == 0 {
        0
    } else {
        char_width(s[0]) + text_width(s.drop_first())
    }
}

fn fit_to_width(value: &str, width: usize) -> (r: String)
    ensures
        r@ == fitted(value@, width as nat),
{
    let chars = chars_of(value);
    let mut out = String::new();
    let mut left: usize = width;
    let mut i: usize = 0;
    proof {
        assert(chars@.skip(0) =~= value@);
        assert(out@ + fitted(chars@.skip(0), width as nat) =~= fitted(value@, width as nat));
    }
    while i < chars.len() && display_width(chars[i]) <= left
        invariant
            i <= chars@.len(),
            out@ + fitted(chars@.skip(i as int), left as nat) == fitted(value@, width as nat),
        decreases chars@.len() - i,
    {
        let ghost before = out@;
        let ghost rest = chars@.skip(i as int);
        let w: usize = display_width(chars[i]);
        out.push(chars[i]);
        proof {
            assert(rest[0] == chars@[i as int]);
            assert(rest.drop_first() =~= chars@.skip(i as int + 1));
            assert(out@ + fitted(chars@.skip(i as int + 1), (left - w) as nat) =~= before + fitted(
                rest,
                left as nat,
            ));
        }
        left = left - w;
        i = i + 1;
    }
    proof {
        let rest = chars@.skip(i as int);
        if i < chars@.len() {
            assert(rest[0] == chars@[i as int]);
        }
        assert(fitted(rest, left as nat) == spaces(left as nat));
    }
    let ghost text = out@;
    let mut k: usize = 0;
    proof {
        assert(text + spaces(0) =~= text);
    }
    while k < left
        invariant
            k <= left,
            out@ == text + spaces(k as nat),
        decreases left - k,
    {
        out.push(' ');
        proof {
            assert(text + spaces(k as nat + 1) =~= (text + spaces(k as nat)).push(' '));
        }
        k = k + 1;
    }
    out
}

/// The rows of a snapshot: the first twelve lines, each fitted to eighty columns, and
/// empty rows below.
pub open spec fn snapshot_rows(lines: Seq<Seq<(Seq<char>, Tone)>>) -> Seq<Seq<char>> {
    Seq::new(
        SNAPSHOT_HEIGHT as nat,
        |i: int|
            if i < lines.len() {
                fitted(line_text(lines[i]), SNAPSHOT_WIDTH as nat)
            } else {
                spaces(SNAPSHOT_WIDTH as nat)
            },
    )
}

pub open spec fn snapshot(lines: Seq<Seq<(Seq<char>, Tone)>>) -> Seq<char> {
    join(snapshot_rows(lines), "\n"@)
}

proof fn lemma_spaces_width(n: nat)
    ensures
        text_width(spaces(n)) == n,
    decreases n,
{
    if n > 0 {
        assert(spaces(n).drop_first() =~= spaces((n - 1) as nat));
        lemma_spaces_width((n - 1) as nat);
    }
}

proof fn lemma_fitted_width(s: Seq<char>, columns: nat)
    ensures
        text_width(fitted(s, columns)) == columns,
    decreases s.len(),
{
    if s.len() == 0 || char_width(s[0]) > columns {
        lemma_spaces_width(columns);
    } else {
        let rest = fitted(s.drop_first(), (columns - char_width(s[0])) as nat);
        lemma_fitted_width(s.drop_first(), (columns - char_width(s[0])) as nat);
        assert((seq![s[0]] + rest).drop_first() =~= rest);
    }
}

/// A snapshot is always exactly twelve rows of eighty columns.
pub proof fn snapshots_are_80_by_12(lines: Seq<Seq<(Seq<char>, Tone)>>)
    ensures
        snapshot_rows(lines).len() == SNAPSHOT_HEIGHT,
        forall|i: int|
            0 <= i < SNAPSHOT_HEIGHT ==> text_width(#[trigger] snapshot_rows(lines)[i])
                == SNAPSHOT_WIDTH,
{
    assert forall|i: int| 0 <= i < SNAPSHOT_HEIGHT implies text_width(
        #[trigger] snapshot_rows(lines)[i],
    ) == SNAPSHOT_WIDTH by {
        if i < lines.len() {
            lemma_fitted_width(line_text(lines[i]), SNAPSHOT_WIDTH as nat);
        } else {
            lemma_spaces_width(SNAPSHOT_WIDTH as nat);
        }
    }
}

/// Nothing in the text can move the cursor, change a color or break a line.
pub open spec fn no_controls(s: Seq<char>) -> bool {
    forall|i: int| 0 <= i < s.len() ==> !is_control(#[trigger] s[i])
}

pub open spec fn clean_line(line: Seq<(Seq<char>, Tone)>) -> bool {
    forall|i: int| 0 <= i < line.len() ==> no_controls((#[trigger] line[i]).0)
}

pub open spec fn clean_screen(lines: Seq<Seq<(Seq<char>, Tone)>>) -> bool {
    forall|i: int| 0 <= i < lines.len() ==> clean_line(#[trigger] lines[i])
}

proof fn lemma_fixed_texts_are_clean()
    ensures
        no_controls("  "@),
        no_controls(" "@),
        no_controls(" -> "@),
        no_controls("  patches "@),
        no_controls(". "@),
        no_controls(">"@),
        no_controls("›"@),
        no_controls("*"@),
        no_controls("✨"@),
        no_controls("!"@),
        no_controls("⚠"@),
        no_controls("Update available!"@),
        no_controls("https://github.com/openai/codex/releases"@),
        no_controls("  Release notes: "@),
        no_controls("Build patched update now"@),
        no_controls("Exit"@),
        no_controls("  Press "@),
        no_controls("Enter"@),
        no_controls(" to continue"@),
        no_controls("  Log: "@),
        no_controls("Patch "@),
        no_controls("Patch"@),
        no_controls(": "@),
        no_controls("Repair with last-good Codex "@),
        no_controls("Patched update failed"@),
        no_controls("  Phase: "@),
        no_controls("Building patched Codex"@),
        no_controls("  Phase  "@),
{
    reveal_strlit("  ");
    reveal_strlit(" ");
    reveal_strlit(" -> ");
    reveal_strlit("  patches ");
    reveal_strlit(". ");
    reveal_strlit(">");
    reveal_strlit("›");
    reveal_strlit("*");
    reveal_strlit("✨");
    reveal_strlit("!");
    reveal_strlit("⚠");
    reveal_strlit("Update available!");
    reveal_strlit("https://github.com/openai/codex/releases");
    reveal_strlit("  Release notes: ");
    reveal_strlit("Build patched update now");
    reveal_strlit("Exit");
    reveal_strlit("  Press ");
    reveal_strlit("Enter");
    reveal_strlit(" to continue");
    reveal_strlit("  Log: ");
    reveal_strlit("Patch ");
    reveal_strlit("Patch");
    reveal_strlit(": ");
    reveal_strlit("Repair with last-good Codex ");
    reveal_strlit("Patched update failed");
    reveal_strlit("  Phase: ");
    reveal_strlit("Building patched Codex");
    reveal_strlit("  Phase  ");
}

proof fn lemma_menu_is_clean(ascii: bool, number: nat, label: Seq<char>, selected: bool)
    requires
        no_controls(label),
    ensures
        clean_line(menu_line(ascii, number, label, selected)),
{
    lemma_fixed_texts_are_clean();
    crate::text::lemma_decimal_digits(number);
    assert(no_controls(" "@ + decimal(number) + ". "@ + label));
    assert(no_controls(" "@ + (" "@ + decimal(number) + ". "@ + label)));
}

proof fn lemma_heading_is_clean(icon: Seq<char>, title: Seq<char>, detail: Seq<char>)
    requires
        no_controls(icon),
        no_controls(title),
        no_controls(detail),
    ensures
        clean_line(heading(icon, title, detail)),
{
    lemma_fixed_texts_are_clean();
    assert(no_controls("  "@ + icon + " "@));
}

/// Whatever the versions, fingerprints, links, paths and log lines hold, no line of a screen
/// holds a control character.
pub proof fn screens_hold_no_controls(
    update: UpdateScreenView,
    failure: FailureScreenView,
    progress: ProgressScreenView,
    selected: nat,
    ascii: bool,
)
    ensures
        clean_screen(update_screen_lines(update, selected, ascii)),
        clean_screen(failure_screen_lines(failure, selected, ascii)),
        clean_screen(progress_screen_lines(progress, ascii)),
{
    lemma_fixed_texts_are_clean();
    lemma_menu_is_clean(ascii, 1, "Build patched update now"@, selected == 0);
    lemma_menu_is_clean(ascii, 2, "Exit"@, selected == 1);
    lemma_menu_is_clean(ascii, 1, "Exit"@, true);
    assert(no_controls(transition_text(update)));
    lemma_heading_is_clean(update_icon_text(ascii), "Update available!"@, transition_text(update));
    lemma_heading_is_clean(
        failure_icon_text(ascii),
        "Patched update failed"@,
        versions_text(failure.current_version, failure.desired_version),
    );
    lemma_heading_is_clean(
        update_icon_text(ascii),
        "Building patched Codex"@,
        versions_text(progress.current_version, progress.desired_version),
    );
    if let Some(version) = failure.last_good_version {
        let label = "Repair with last-good Codex "@ + sanitized(version);
        assert(no_controls(label));
        lemma_menu_is_clean(ascii, 1, label, selected == 0);
    }
    if let Some(patch) = failure.failed_patch {
        if let Some(n) = failure.failed_patch_index {
            crate::text::lemma_decimal_digits(n as nat);
        }
        assert(no_controls(patch_label(failure.failed_patch_index)));
        assert(no_controls(
            "  "@ + patch_label(failure.failed_patch_index) + ": "@ + sanitized(patch),
        ));
    }
    assert(no_controls("  Phase: "@ + sanitized(failure.phase)));
    assert(no_controls("  "@ + sanitized(failure.summary)));
    if let Some(line) = progress.latest_line {
        assert(no_controls("  "@ + sanitized(line)));
    }
}

proof fn lemma_line_text_is_clean(line: Seq<(Seq<char>, Tone)>)
    requires
        clean_line(line),
    ensures
        no_controls(line_text(line)),
    decreases line.len(),
{
    if line.len() > 0 {
        lemma_line_text_is_clean(line.drop_last());
        assert(no_controls(line[line.len() - 1].0));
    }
}

proof fn lemma_fitted_is_clean(s: Seq<char>, columns: nat)
    requires
        no_controls(s),
    ensures
        no_controls(fitted(s, columns)),
    decreases s.len(),
{
    if s.len() > 0 && char_width(s[0]) <= columns {
        lemma_fitted_is_clean(s.drop_first(), (columns - char_width(s[0])) as nat);
    }
}

/// A snapshot of a screen without control characters has none in its rows, so the line
/// breaks between the rows are its only ones.
pub proof fn snapshots_hold_no_controls(lines: Seq<Seq<(Seq<char>, Tone)>>)
    requires
        clean_screen(lines),
    ensures
        forall|i: int| 0 <= i < SNAPSHOT_HEIGHT ==> no_controls(#[trigger] snapshot_rows(lines)[i]),
{
    assert forall|i: int| 0 <= i < SNAPSHOT_HEIGHT implies no_controls(
        #[trigger] snapshot_rows(lines)[i],
    ) by {
        if i < lines.len() {
            lemma_line_text_is_clean(lines[i]);
            lemma_fitted_is_clean(line_text(lines[i]), SNAPSHOT_WIDTH as nat);
        }
    }
}

/// A row without double-width characters has as many characters as columns.
pub proof fn narrow_rows_have_a_character_per_column(row: Seq<char>)
    requires
        forall|i: int| 0 <= i < row.len() ==> char_width(#[trigger] row[i]) == 1,
    ensures
        text_width(row) == row.len(),
    decreases row.len(),
{
    if row.len() > 0 {
        let rest = row.drop_first();
        assert forall|i: int| 0 <= i < rest.len() implies char_width(#[trigger] rest[i]) == 1 by {
            assert(rest[i] == row[i + 1]);
        }
        narrow_rows_have_a_character_per_column(rest);
    }
}

fn text_of_line(line: &Vec<Piece>) -> (r: String)
    ensures
        r@ == line_text(pieces_view(line@)),
{
    let mut out = String::new();
    let ghost all = pieces_view(line@);
    let mut i: usize = 0;
    proof {
        assert(all.take(0) =~= Seq::empty());
    }
    while i < line.len()
        invariant
            i <= line@.len(),
            all == pieces_view(line@),
            out@ == line_text(all.take(i as int)),
        decreases line@.len() - i,
    {
        out.append(line[i].text.as_str());
        proof {
            assert(all.take(i as int + 1).drop_last() =~= all.take(i as int));
            assert(all.take(i as int + 1).last() == piece_view(line@[i as int]));
        }
        i = i + 1;
    }
    proof {
        assert(all.take(line@.len() as int) =~= all);
    }
    out
}

pub fn render_snapshot(lines: &Vec<Vec<Piece>>) -> (r: String)
    ensures
        r@ == snapshot(screen_view(lines@)),
{
    let ghost all = screen_view(lines@);
    let ghost wanted = snapshot_rows(all);
    let mut rows: Vec<String> = Vec::new();
    while rows.len() < SNAPSHOT_HEIGHT
        invariant
            rows@.len() <= SNAPSHOT_HEIGHT,
            all == screen_view(lines@),
            wanted == snapshot_rows(all),
            texts(rows@) == wanted.take(rows@.len() as int),
        decreases SNAPSHOT_HEIGHT - rows@.len(),
    {
        let i: usize = rows.len();
        let row = if i < lines.len() {
            proof {
                assert(all[i as int] == pieces_view(lines@[i as int]@));
            }
            fit_to_width(text_of_line(&lines[i]).as_str(), SNAPSHOT_WIDTH)
        } else {
            let r = fit_to_width("", SNAPSHOT_WIDTH);
            proof {
                reveal_strlit("");
                assert(""@ =~= Seq::empty());
                assert(r@ == spaces(SNAPSHOT_WIDTH as nat));
            }
            r
        };
        proof {
            assert(all.len() == lines@.len());
            assert(wanted[i as int] == row@);
            lemma_texts_push(rows@, row);
            assert(wanted.take(i as int + 1) =~= wanted.take(i as int).push(row@));
        }
        rows.push(row);
    }
    proof {
        assert(wanted.take(SNAPSHOT_HEIGHT as int) =~= wanted);
    }
    join_texts(&rows, "\n")
}

pub fn render_update_80x12(screen: &UpdateScreen, options: RenderOptions) -> (r: String)
    ensures
        r@ == snapshot(update_screen_lines(screen@, 0, options.ascii)),
{
    render_snapshot(&update_styled_lines(screen, 0, options))
}

pub fn render_failure_80x12(screen: &FailureScreen, options: RenderOptions) -> (r: String)
    ensures
        r@ == snapshot(failure_screen_lines(screen@, 0, options.ascii)),
{
    render_snapshot(&failure_styled_lines(screen, 0, options))
}

pub fn render_progress_80x12(screen: &ProgressScreen, options: RenderOptions) -> (r: String)
    ensures
        r@ == snapshot(progress_screen_lines(screen@, options.ascii)),
{
    render_snapshot(&progress_styled_lines(screen, options))
}

/// The keys that the prompts tell apart.
#[derive(Debug, Clone, Copy, PartialEq, Eq, Structural)]
pub enum Key {
    Escape,
    Up,
    Down,
    Enter,
    Char(char),
    Other,
}

/// A key event: `released` when the key was let go, `control` with the control key held.
#[derive(Debug, Clone, Copy, PartialEq, Eq, Structural)]
pub struct KeyPress {
    pub key: Key,
    pub control: bool,
    pub released: bool,
}

#[derive(Debug, Clone, Copy, PartialEq, Eq, Structural)]
pub enum MenuChoice {
    Select(usize),
    Exit,
}

pub open spec fn leaves_menu(press: KeyPress) -> bool {
    press.key == Key::Escape || (press.control && (press.key == Key::Char('c') || press.key
        == Key::Char('d')))
}

/// What a key does in a menu of `count` entries: where the selection is, and what was
/// chosen.
pub open spec fn menu_step(
    selected: int,
    count: int,
    press: KeyPress,
) -> (int, Option<MenuChoice>) {
    if press.released {
        (selected, None)
    } else if leaves_menu(press) {
        (selected, Some(MenuChoice::Exit))
    } else {
        match press.key {
            Key::Up => ((selected + count - 1) % count, None),
            Key::Down => ((selected + 1) % count, None),
            Key::Enter => (selected, Some(MenuChoice::Select(selected as usize))),
            Key::Char(c) => if c == 'k' {
                ((selected + count - 1) % count, None)
            } else if c == 'j' {
                ((selected + 1) % count, None)
            } else if '1' <= c <= '9' && c as int - '0' as int <= count {
                (selected, Some(MenuChoice::Select((c as int - '1' as int) as usize)))
            } else {
                (selected, None)
            },
            _ => (selected, None),
        }
    }
}

pub fn menu_key(selected: &mut usize, option_count: usize, press: KeyPress) -> (r: Option<
    MenuChoice,
>)
    requires
        option_count >= 1,
        *old(selected) + option_count <= usize::MAX,
    ensures
        (*final(selected) as int, r) == menu_step(
            *old(selected) as int,
            option_count as int,
            press,
        ),
{
    if press.released {
        return None;
    }
    match press.key {
        Key::Escape => Some(MenuChoice::Exit),
        Key::Up => {
            *selected = (*selected + option_count - 1) % option_count;
            None
        },
        Key::Down => {
            *selected = (*selected + 1) % option_count;
            None
        },
        Key::Enter => Some(MenuChoice::Select(*selected)),
        Key::Char(c) => {
            if press.control && (c == 'c' || c == 'd') {
                return Some(MenuChoice::Exit);
            }
            if c == 'k' {
                *selected = (*selected + option_count - 1) % option_count;
                return None;
            }
            if c == 'j' {
                *selected = (*selected + 1) % option_count;
                return None;
            }
            if '1' <= c && c <= '9' {
                let index: usize = (c as u32 - 49) as usize;
                if index < option_count {
                    return Some(MenuChoice::Select(index));
                }
            }
            None
        },
        Key::Other => None,
    }
}

/// Moving through a menu never leaves it.
pub proof fn selection_stays_in_the_menu(selected: int, count: int, press: KeyPress)
    requires
        0 <= selected < count,
        count <= usize::MAX,
    ensures
        0 <= menu_step(selected, count, press).0 < count,
        menu_step(selected, count, press).1 matches Some(MenuChoice::Select(n)) ==> n < count,
{
    assert(0 <= (selected + count - 1) % count < count) by (nonlinear_arith)
        requires
            0 <= selected < count,
    ;
    assert(0 <= (selected + 1) % count < count) by (nonlinear_arith)
        requires
            0 <= selected < count,
    ;
}

pub open spec fn update_choice(choice: Option<MenuChoice>) -> Option<UpdateChoice> {
    match choice {
        Some(MenuChoice::Select(n)) => if n == 0 {
            Some(UpdateChoice::Build)
        } else {
            Some(UpdateChoice::Exit)
        },
        Some(MenuChoice::Exit) => Some(UpdateChoice::Exit),
        None => None,
    }
}

/// One key of the update prompt.
pub fn update_key(selected: &mut usize, press: KeyPress) -> (r: Option<UpdateChoice>)
    requires
        *old(selected) + 2 <= usize::MAX,
    ensures
        (*final(selected) as int, r) == ({
            let step = menu_step(*old(selected) as int, 2, press);
            (step.0, update_choice(step.1))
        }),
{
    match menu_key(selected, 2, press) {
        Some(MenuChoice::Select(n)) => {
            if n == 0 {
                Some(UpdateChoice::Build)
            } else {
                Some(UpdateChoice::Exit)
            }
        },
        Some(MenuChoice::Exit) => Some(UpdateChoice::Exit),
        None => None,
    }
}

pub open spec fn failure_choice(choice: Option<MenuChoice>, count: int) -> Option<FailureChoice> {
    match choice {
        Some(MenuChoice::Select(n)) => if n == 0 && count == 2 {
            Some(FailureChoice::Repair)
        } else {
            Some(FailureChoice::Exit)
        },
        Some(MenuChoice::Exit) => Some(FailureChoice::Exit),
        None => None,
    }
}

/// One key of the failure prompt.
pub fn failure_key(selected: &mut usize, option_count: usize, press: KeyPress) -> (r: Option<
    FailureChoice,
>)
    requires
        option_count >= 1,
        *old(selected) + option_count <= usize::MAX,
    ensures
        (*final(selected) as int, r) == ({
            let step = menu_step(*old(selected) as int, option_count as int, press);
            (step.0, failure_choice(step.1, option_count as int))
        }),
{
    match menu_key(selected, option_count, press) {
        Some(MenuChoice::Select(n)) => {
            if n == 0 && option_count == 2 {
                Some(FailureChoice::Repair)
            } else {
                Some(FailureChoice::Exit)
            }
        },
        Some(MenuChoice::Exit) => Some(FailureChoice::Exit),
        None => None,
    }
}

/// The number of entries of the failure prompt.
pub fn failure_option_count(screen: &FailureScreen) -> (r: usize)
    ensures
        r == failure_menu(screen@, 0, true).len(),
{
    if screen.last_good_version.is_some() {
        2
    } else {
        1
    }
}

/// Without a last-good generation every choice of the failure prompt is to exit.
pub proof fn repair_needs_a_last_good_generation(
    s: FailureScreenView,
    selected: int,
    press: KeyPress,
)
    requires
        s.last_good_version is None,
    ensures
        failure_menu(s, 0, true).len() == 1,
        failure_choice(menu_step(selected, 1, press).1, 1) != Some(FailureChoice::Repair),
{
}

/// What the update prompt comes to, from the key at `i` on; `None` while it is open.
pub open spec fn update_answer(
    selected: int,
    presses: Seq<KeyPress>,
    i: int,
) -> Option<UpdateChoice>
    decreases presses.len() - i,
{
    if i >= presses.len() {
        None
    } else {
        let step = menu_step(selected, 2, presses[i]);
        match update_choice(step.1) {
            Some(choice) => Some(choice),
            None => update_answer(step.0, presses, i + 1),
        }
    }
}

/// The answer to the update prompt that the keys give, if they give one.
pub fn prompt_update(presses: &Vec<KeyPress>) -> (r: Option<UpdateChoice>)
    ensures
        r == update_answer(0, presses@, 0),
{
    let mut selected: usize = 0;
    let mut i: usize = 0;
    while i < presses.len()
        invariant
            i <= presses@.len(),
            selected < 2,
            update_answer(0, presses@, 0) == update_answer(selected as int, presses@, i as int),
        decreases presses@.len() - i,
    {
        proof {
            selection_stays_in_the_menu(selected as int, 2, presses@[i as int]);
        }
        if let Some(choice) = update_key(&mut selected, presses[i]) {
            return Some(choice);
        }
        i = i + 1;
    }
    None
}

/// What the failure prompt comes to, from the key at `i` on; `None` while it is open.
pub open spec fn failure_answer(
    selected: int,
    count: int,
    presses: Seq<KeyPress>,
    i: int,
) -> Option<
    FailureChoice,
>
    decreases presses.len() - i,
{
    if i >= presses.len() {
        None
    } else {
        let step = menu_step(selected, count, presses[i]);
        match failure_choice(step.1, count) {
            Some(choice) => Some(choice),
            None => failure_answer(step.0, count, presses, i + 1),
        }
    }
}

/// The answer to the failure prompt that the keys give, if they give one.
pub fn prompt_failure(screen: &FailureScreen, presses: &Vec<KeyPress>) -> (r: Option<FailureChoice>)
    ensures
        r == failure_answer(0, failure_menu(screen@, 0, true).len() as int, presses@, 0),
        screen.last_good_version is None ==> r != Some(FailureChoice::Repair),
{
    let count = failure_option_count(screen);
    let mut selected: usize = 0;
    let mut i: usize = 0;
    while i < presses.len()
        invariant
            i <= presses@.len(),
            1 <= count <= 2,
            count == 2 <==> screen.last_good_version is Some,
            selected < count,
            failure_answer(0, count as int, presses@, 0) == failure_answer(
                selected as int,
                count as int,
                presses@,
                i as int,
            ),
            count == failure_menu(screen@, 0, true).len(),
        decreases presses@.len() - i,
    {
        proof {
            selection_stays_in_the_menu(selected as int, count as int, presses@[i as int]);
        }
        if let Some(choice) = failure_key(&mut selected, count, presses[i]) {
            return Some(choice);
        }
        i = i + 1;
    }
    None
}

} // verus!
