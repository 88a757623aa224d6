//! The application's commands, as computations on plain values: normalizing
//! the working directory, sizing the PTY, preparing captures for export, and
//! the payloads exchanged with the frontend.
use vstd::prelude::*;
use crate::capture::RunOutcome;
use crate::export::{base64_encode, base64_standard, fits_scaled, pty_cols, pty_cols_spec, pty_rows, pty_rows_spec, svg_document, try_render_svg};
use crate::ir::{Capture, CaptureView};
use crate::redact::{redact_capture, redact_capture_view, RedactRule, Redaction, RuleView};
use crate::text::{chars_of, dec_digits, push_char, push_decimal};
use crate::theme::{default_palette, preset_id, preset_theme_view, Palette, Preset, Theme};

verus! {

/// Result of a capture run as handed to the frontend: the capture, the exit
/// code (`None` when the process was killed by stop or timeout), and whether
/// the output was truncated or timed out.
#[derive(Debug)]
pub struct CaptureResult {
    pub capture: Capture,
    pub exit_code: Option<u32>,
    pub truncated: bool,
    pub timed_out: bool,
}

impl CaptureResult {
    /// The result of a run, field for field.
    pub fn from_outcome(out: RunOutcome) -> (r: CaptureResult)
        ensures
            r.capture@ == out.capture@,
            r.exit_code == out.exit_code,
            r.truncated == out.truncated,
            r.timed_out == out.timed_out,
    {
        CaptureResult {
            capture: out.capture,
            exit_code: out.exit_code,
            truncated: out.truncated,
            timed_out: out.timed_out,
        }
    }
}

/// Claims the single capture slot: an error while a capture runs, leaving
/// the stop flag as it is; otherwise the slot is taken and the stop flag of
/// the new run is cleared. Only one capture runs at a time.
pub fn claim_capture_slot(running: &mut bool, stop: &mut bool) -> (r: Result<(), String>)
    ensures
        *old(running) ==> (r is Err && *final(running) && *final(stop) == *old(stop)
            && r->Err_0@ == "A capture is already in progress"@),
        !*old(running) ==> r is Ok && *final(running) && !*final(stop),
{
    if *running {
        return Err(String::from_str("A capture is already in progress"));
    }
    *running = true;
    *stop = false;
    Ok(())
}

/// Frees the capture slot once a run has ended, however it ended.
pub fn release_capture_slot(running: &mut bool)
    ensures
        !*final(running),
{
    *running = false;
}

/// `~` and `~/...` expanded against the home directory; anything else, or
/// any path when the home directory is unknown (empty), is kept.
pub open spec fn expand_tilde_spec(cwd: Seq<char>, home: Seq<char>) -> Seq<char> {
    if home.len() == 0 {
        cwd
    } else if cwd == seq!['~'] {
        home
    } else if cwd.len() >= 2 && cwd[0] == '~' && cwd[1] == '/' {
        home + seq!['/'] + cwd.skip(2)
    } else {
        cwd
    }
}

/// Expands `~` and `~/...` against the home directory.
pub fn expand_tilde(cwd: String, home: String) -> (r: String)
    ensures
        r@ == expand_tilde_spec(cwd@, home@),
{
    if home.as_str().is_empty() {
        return cwd;
    }
    let cs = chars_of(cwd.as_str());
    if cs.len() == 1 && cs[0] == '~' {
        assert(cwd@ =~= seq!['~']);
        home
    } else if cs.len() >= 2 && cs[0] == '~' && cs[1] == '/' {
        let mut r = home;
        push_char(&mut r, '/');
        let ghost start = r@;
        let mut i: usize = 2;
        while i < cs.len()
            invariant
                2 <= i <= cs@.len(),
                cs@ == cwd@,
                r@ == start + cwd@.subrange(2, i as int),
            decreases cs@.len() - i,
        {
            push_char(&mut r, cs[i]);
            assert(cwd@.subrange(2, i + 1) =~= cwd@.subrange(2, i as int).push(cs@[i as int]));
            i = i + 1;
        }
        assert(cwd@.skip(2) =~= cwd@.subrange(2, cs@.len() as int));
        proof {
            if cwd@ == seq!['~'] {
                assert(cwd@.len() == 1);
            }
        }
        r
    } else {
        proof {
            if cwd@ == seq!['~'] {
                assert(cs@.len() == 1 && cs@[0] == '~');
            }
        }
        cwd
    }
}

/// The working directory for a capture: an empty directory means none, and
/// a leading `~` is expanded (the spawned process does no tilde expansion).
pub open spec fn normalize_cwd_spec(cwd: Option<Seq<char>>, home: Seq<char>) -> Option<Seq<char>> {
    match cwd {
        Some(c) => if c.len() == 0 { None } else { Some(expand_tilde_spec(c, home)) },
        None => None,
    }
}

/// Normalizes the working directory before it reaches the PTY.
pub fn normalize_cwd(cwd: Option<String>, home: String) -> (r: Option<String>)
    ensures
        match r {
            Some(s) => normalize_cwd_spec(crate::redact::opt_str_view(cwd), home@) == Some(s@),
            None => normalize_cwd_spec(crate::redact::opt_str_view(cwd), home@) is None,
        },
{
    match cwd {
        Some(c) => {
            if c.as_str().is_empty() {
                None
            } else {
                Some(expand_tilde(c, home))
            }
        },
        None => None,
    }
}

/// PTY size `(cols, rows)` for a capture: sized to the card width so the
/// terminal wraps long lines where the card does.
pub fn pty_size(card_width: Option<u32>, font_size: u32) -> (r: (u16, u16))
    ensures
        r.0 == pty_cols_spec(card_width, font_size),
        r.1 == pty_rows_spec(r.0),
{
    let cols = pty_cols(card_width, font_size);
    (cols, pty_rows(cols))
}

/// Full theme of a preset by its identifier, or the error
/// `unknown preset: <id>`.
pub fn preset_theme(preset: &str) -> (r: Result<Theme, String>)
    ensures
        match r {
            Ok(t) => exists|p: Preset| preset_id(p) == preset@ && t@ == preset_theme_view(p),
            Err(msg) => (forall|p: Preset| preset_id(p) != preset@) && msg@ == "unknown preset: "@ + preset@,
        },
{
    match Preset::from_id(preset) {
        Some(p) => Ok(p.theme()),
        None => {
            let mut msg = String::from_str("unknown preset: ");
            msg.append(preset);
            Err(msg)
        },
    }
}

/// Whether a PNG export scale is accepted (2x, 3x or 4x).
pub open spec fn png_scale_ok(scale: u32) -> bool {
    2 <= scale <= 4
}

/// Accepts a PNG export scale, or gives the error `invalid scale: <n>`.
pub fn check_png_scale(scale: u32) -> (r: Result<(), String>)
    ensures
        r is Ok <==> png_scale_ok(scale),
        r matches Err(msg) ==> msg@ == "invalid scale: "@ + dec_digits(scale as nat),
{
    if 2 <= scale && scale <= 4 {
        Ok(())
    } else {
        let mut msg = String::from_str("invalid scale: ");
        push_decimal(&mut msg, scale as u128);
        Err(msg)
    }
}

/// The capture a PNG export renders: the capture with every rule applied
/// (a PNG export is never uncensored), or the error `invalid scale: <n>`.
pub fn png_export_capture(capture: Capture, rules: Vec<RedactRule>, scale: u32) -> (r: Result<Capture, String>)
    ensures
        match r {
            Ok(c) => png_scale_ok(scale) && c@ == redact_capture_view(
                rules@.map_values(|x: RedactRule| x@),
                capture@,
            ),
            Err(msg) => !png_scale_ok(scale) && msg@ == "invalid scale: "@ + dec_digits(scale as nat),
        },
{
    match check_png_scale(scale) {
        Ok(()) => {},
        Err(msg) => {
            return Err(msg);
        },
    }
    let mut cap = capture;
    let red = Redaction { rules };
    redact_capture(&mut cap, &red);
    Ok(cap)
}

/// The capture the SVG export renders: redacted, unless the preview asks
/// for the raw capture.
pub open spec fn svg_export_capture(rules: Seq<RuleView>, c: CaptureView, show_raw: Option<bool>) -> CaptureView {
    if show_raw == Some(true) {
        c
    } else {
        redact_capture_view(rules, c)
    }
}

/// The exact SVG the exporter rasterizes, at scale 1 with the default
/// palette. The preview displays it as-is, so preview and PNG cannot
/// diverge; only the preview asks for `show_raw` to see the capture
/// uncensored. A card too large for exact coordinates is an error.
pub fn export_svg(capture: Capture, theme: &Theme, rules: Vec<RedactRule>, show_raw: Option<bool>) -> (r: Result<String, String>)
    ensures
        ({
            let c = svg_export_capture(rules@.map_values(|x: RedactRule| x@), capture@, show_raw);
            match r {
                Ok(svg) => fits_scaled(c, theme@, 1) && svg@ == svg_document(c, theme@, default_palette(), 1),
                Err(msg) => !fits_scaled(c, theme@, 1) && msg@ == "card too large to render"@,
            }
        }),
{
    let mut cap = capture;
    let raw = match show_raw {
        Some(b) => b,
        None => false,
    };
    if !raw {
        let red = Redaction { rules };
        redact_capture(&mut cap, &red);
    }
    let palette = Palette::default();
    match try_render_svg(&cap, theme, &palette, 1) {
        Some(svg) => Ok(svg),
        None => Err(String::from_str("card too large to render")),
    }
}

/// A PNG as the frontend receives it: standard base64.
pub fn png_payload(png: &[u8]) -> (s: String)
    requires
        png@.len() <= isize::MAX,
    ensures
        s@ == base64_standard(png@),
{
    base64_encode(png)
}

#[verifier::external_type_specification]
#[verifier::external_body]
pub struct ExDecodeError(base64::DecodeError);

/// Bytes of a standard base64 text, as the `base64` crate's `STANDARD`
/// engine decodes it; `None` when it refuses the text.
pub uninterp spec fn base64_decoded(text: Seq<char>) -> Option<Seq<u8>>;

/// Decodes standard base64.
///
/// Calls `base64::Engine::decode` on `base64::engine::general_purpose::STANDARD`.
/// Beside the name, the contract states what the crate's engine guarantees of
/// its own encoding: the padded encoding of any bytes decodes to those bytes.
#[verifier::external_body]
fn base64_decode(text: &str) -> (r: Result<Vec<u8>, base64::DecodeError>)
    ensures
        match r {
            Ok(v) => base64_decoded(text@) == Some(v@) && forall|data: Seq<u8>|
                base64_standard(data) == text@ ==> v@ == data,
            Err(_) => base64_decoded(text@) is None && forall|data: Seq<u8>| base64_standard(data) != text@,
        },
{
    base64::Engine::decode(&base64::engine::general_purpose::STANDARD, text)
}

/// The message of a base64 decoding error.
///
/// Formats the `base64::DecodeError` with its `Display` implementation.
#[verifier::external_body]
fn decode_error_text(e: &base64::DecodeError) -> String {
    format!("{e}")
}

/// What `decode_png_payload` answers for a payload: the decoded bytes, which
/// are the encoded bytes when the payload is an encoding; or an error
/// starting with `invalid base64: ` when the payload is refused, which no
/// encoding is.
pub open spec fn decode_payload_answer(b64: Seq<char>, r: Result<Vec<u8>, String>) -> bool {
    match r {
        Ok(v) => base64_decoded(b64) == Some(v@) && forall|data: Seq<u8>| base64_standard(data) == b64 ==> v@ == data,
        Err(msg) => base64_decoded(b64) is None && (forall|data: Seq<u8>| base64_standard(data) != b64)
            && "invalid base64: "@.is_prefix_of(msg@),
    }
}

/// The PNG bytes of a base64 payload, or an error starting with
/// `invalid base64: `.
pub fn decode_png_payload(b64: &str) -> (r: Result<Vec<u8>, String>)
    ensures
        decode_payload_answer(b64@, r),
{
    match base64_decode(b64) {
        Ok(v) => Ok(v),
        Err(e) => {
            let mut msg = String::from_str("invalid base64: ");
            let detail = decode_error_text(&e);
            let ghost head = msg@;
            msg.append(detail.as_str());
            assert(msg@.subrange(0, head.len() as int) =~= head);
            Err(msg)
        },
    }
}

/// A PNG handed to the frontend as a payload and back is the same PNG.
pub proof fn png_payload_roundtrip(png: Seq<u8>, r: Result<Vec<u8>, String>)
    requires
        decode_payload_answer(base64_standard(png), r),
    ensures
        r matches Ok(v) && v@ == png,
{
}

} // verus!
