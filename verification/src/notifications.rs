//! Desktop notification texts: what the clip, character and profile
//! notifications say, how a notification splits into title and body, and the
//! toast document a Windows notification is shown from.
use vstd::prelude::*;
use crate::platform::Platform;
use crate::text::{chars_of, decimal, decimal_string, find_char, first_index_of, lemma_first_index_of, lemma_first_index_of_none, owned, string_of, sub_chars, trim, trim_chars};

verus! {

/// How much of the replay buffer a clip keeps.
#[derive(Clone, Copy, Debug, PartialEq, Eq, Structural)]
pub enum ClipLength {
    Seconds(u32),
    FullBuffer,
}

pub open spec fn clip_duration_text(duration: ClipLength) -> Seq<char> {
    match duration {
        ClipLength::Seconds(value) => if value == 1 {
            "1 second"@
        } else {
            decimal(value as nat) + " seconds"@
        },
        ClipLength::FullBuffer => "full buffer"@,
    }
}

/// "1 second", "N seconds" or "full buffer".
pub fn format_clip_duration(duration: ClipLength) -> (out: String)
    ensures
        out@ == clip_duration_text(duration),
{
    match duration {
        ClipLength::Seconds(value) => {
            if value == 1 {
                owned("1 second")
            } else {
                let mut out = decimal_string(value as u64);
                out.push_str(" seconds");
                out
            }
        },
        ClipLength::FullBuffer => owned("full buffer"),
    }
}

/// The text shown when a clip was saved.
pub fn clip_saved_text(duration: ClipLength) -> (out: String)
    ensures
        out@ == "Highlight clipped\nDuration: "@ + clip_duration_text(duration),
{
    let mut out = owned("Highlight clipped\nDuration: ");
    let d = format_clip_duration(duration);
    out.push_str(d.as_str());
    out
}

/// The text shown when the monitored character is confirmed.
pub fn character_confirmed_text(character_name: &str) -> (out: String)
    ensures
        out@ == "Character confirmed\nNow monitoring "@ + character_name@,
{
    let mut out = owned("Character confirmed\nNow monitoring ");
    out.push_str(character_name);
    out
}

/// The text shown when a profile becomes active.
pub fn profile_activated_text(profile_name: &str) -> (out: String)
    ensures
        out@ == "Profile activated\n"@ + profile_name@,
{
    let mut out = owned("Profile activated\n");
    out.push_str(profile_name);
    out
}

/// Title and body of a notification: the first line is the title, the rest
/// the body; both trimmed, and an empty body is no body.
pub open spec fn split_title_body(t: Seq<char>) -> (Seq<char>, Option<Seq<char>>) {
    match first_index_of(t, '\n') {
        Some(i) => {
            let title = trim(t.take(i));
            let body = trim(t.skip(i + 1));
            if body.len() == 0 {
                (title, None)
            } else {
                (title, Some(body))
            }
        },
        None => (trim(t), None),
    }
}

/// Splits a notification into its title and optional body.
pub fn split_notification_text(text: &str) -> (r: (String, Option<String>))
    ensures
        r.0@ == split_title_body(text@).0,
        match (r.1, split_title_body(text@).1) {
            (Some(b), Some(sb)) => b@ == sb,
            (None, None) => true,
            _ => false,
        },
{
    let v = chars_of(text);
    match find_char(&v, '\n') {
        Some(i) => {
            proof {
                lemma_first_index_of(v@, '\n', i as int);
            }
            let head = sub_chars(&v, 0, i);
            let tail = sub_chars(&v, i + 1, v.len());
            assert(head@ =~= v@.take(i as int));
            assert(tail@ =~= v@.skip(i + 1));
            let title = trim_chars(&head);
            let body = trim_chars(&tail);
            if body.len() == 0 {
                (string_of(&title), None)
            } else {
                (string_of(&title), Some(string_of(&body)))
            }
        },
        None => {
            proof {
                lemma_first_index_of_none(v@, '\n');
            }
            let title = trim_chars(&v);
            (string_of(&title), None)
        },
    }
}

/// One character written for an XML text node.
pub open spec fn xml_escape_char(c: char) -> Seq<char> {
    if c == '&' {
        "&amp;"@
    } else if c == '<' {
        "&lt;"@
    } else if c == '>' {
        "&gt;"@
    } else if c == '"' {
        "&quot;"@
    } else if c == '\'' {
        "&apos;"@
    } else {
        seq![c]
    }
}

/// `s` with the five reserved XML characters written as entities.
pub open spec fn xml_escaped(s: Seq<char>) -> Seq<char>
    decreases s.len(),
{
    if s.len() == 0 {
        seq![]
    } else {
        xml_escaped(s.drop_last()) + xml_escape_char(s.last())
    }
}

/// Escapes `&`, `<`, `>`, `"` and `'` for XML.
pub fn xml_escape(value: &str) -> (out: String)
    ensures
        out@ == xml_escaped(value@),
{
    let v = chars_of(value);
    let mut out = String::new();
    let mut i: usize = 0;
    while i < v.len()
        invariant
            i <= v.len(),
            out@ == xml_escaped(v@.take(i as int)),
        decreases v.len() - i,
    {
        let c = v[i];
        if c == '&' {
            out.push_str("&amp;");
        } else if c == '<' {
            out.push_str("&lt;");
        } else if c == '>' {
            out.push_str("&gt;");
        } else if c == '"' {
            out.push_str("&quot;");
        } else if c == '\'' {
            out.push_str("&apos;");
        } else {
            out.push(c);
        }
        proof {
            let t = v@.take(i + 1);
            assert(t.drop_last() =~= v@.take(i as int));
            assert(t.last() == c);
        }
        i = i + 1;
    }
    assert(v@.take(v.len() as int) =~= v@);
    out
}

/// The toast document for a notification with this title and body.
pub open spec fn toast_xml(title: Seq<char>, body: Option<Seq<char>>) -> Seq<char> {
    let head = "<toast>"@ + "<visual><binding template=\"ToastGeneric\">"@ + "<text>"@
        + xml_escaped(title) + "</text>"@;
    let middle = match body {
        Some(b) => "<text>"@ + xml_escaped(b) + "</text>"@,
        None => seq![],
    };
    head + middle + "</binding></visual>"@ + "</toast>"@
}

/// The Windows toast document for a notification text.
pub fn build_windows_toast_xml(text: &str) -> (out: String)
    ensures
        out@ == toast_xml(split_title_body(text@).0, split_title_body(text@).1),
{
    let (title, body) = split_notification_text(text);
    let mut out = owned("<toast>");
    out.push_str("<visual><binding template=\"ToastGeneric\">");
    out.push_str("<text>");
    let t = xml_escape(title.as_str());
    out.push_str(t.as_str());
    out.push_str("</text>");
    let ghost head = out@;
    match body {
        Some(b) => {
            out.push_str("<text>");
            let e = xml_escape(b.as_str());
            out.push_str(e.as_str());
            out.push_str("</text>");
        },
        None => {},
    }
    out.push_str("</binding></visual>");
    out.push_str("</toast>");
    proof {
        let sb = split_title_body(text@);
        match sb.1 {
            Some(x) => {
                assert(out@ =~= toast_xml(sb.0, sb.1));
            },
            None => {
                assert(out@ =~= toast_xml(sb.0, sb.1));
            },
        }
    }
    out
}

/// `value` with each `'` doubled, for a single-quoted PowerShell string.
pub open spec fn ps_quoted(s: Seq<char>) -> Seq<char>
    decreases s.len(),
{
    if s.len() == 0 {
        seq![]
    } else {
        ps_quoted(s.drop_last()) + (if s.last() == '\'' {
            seq!['\'', '\'']
        } else {
            seq![s.last()]
        })
    }
}

pub fn powershell_single_quoted(value: &str) -> (out: String)
    ensures
        out@ == ps_quoted(value@),
{
    let v = chars_of(value);
    let mut out = String::new();
    let mut i: usize = 0;
    while i < v.len()
        invariant
            i <= v.len(),
            out@ == ps_quoted(v@.take(i as int)),
        decreases v.len() - i,
    {
        let c = v[i];
        if c == '\'' {
            out.push('\'');
            out.push('\'');
        } else {
            out.push(c);
        }
        proof {
            let t = v@.take(i + 1);
            assert(t.drop_last() =~= v@.take(i as int));
            assert(t.last() == c);
        }
        i = i + 1;
    }
    assert(v@.take(v.len() as int) =~= v@);
    out
}

/// The name of the program or service that shows notifications.
pub fn notification_backend_name(platform: Platform) -> (r: &'static str)
    ensures
        r@ == (match platform {
            Platform::Linux => "gsr-notify"@,
            Platform::Windows => "Windows toast notification"@,
            Platform::MacOs | Platform::Other => "notification backend"@,
        }),
{
    match platform {
        Platform::Linux => "gsr-notify",
        Platform::Windows => "Windows toast notification",
        Platform::MacOs | Platform::Other => "notification backend",
    }
}

} // verus!
