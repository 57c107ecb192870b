use vstd::prelude::*;

use std::time::Duration;

use vstd::string::StringSliceAdditionalSpecFns;

use crate::text::{append_str, concat2, decimal, owned, u128_text, u64_text};

verus! {

/// The whole milliseconds of a duration.
pub uninterp spec fn duration_millis(d: Duration) -> nat;

/// Calls `Duration::as_millis`; the contract names the result
/// `duration_millis(d)`.
#[verifier::external_body]
fn as_millis(d: &Duration) -> (r: u128)
    ensures
        r as nat == duration_millis(*d),
{
    d.as_millis()
}

/// The milliseconds of a duration, `u64::MAX` when they do not fit.
pub fn millis_u64(d: Duration) -> (r: u64)
    ensures
        r == if duration_millis(d) <= u64::MAX { duration_millis(d) } else { u64::MAX as nat },
{
    let ms = as_millis(&d);
    if ms <= u64::MAX as u128 {
        ms as u64
    } else {
        u64::MAX
    }
}

/// Short text of a duration in milliseconds: `<m>m<ss>s` from a minute on,
/// `<s>s` from a second on, `<ms>ms` below.
pub open spec fn duration_text(ms: nat) -> Seq<char> {
    let secs = ms / 1000;
    if secs >= 60 {
        decimal(secs / 60) + "m"@ + (if secs % 60 < 10 { "0"@ } else { Seq::empty() }) + decimal(secs % 60) + "s"@
    } else if ms >= 1000 {
        decimal(secs) + "s"@
    } else {
        decimal(ms) + "ms"@
    }
}

/// The short text of a duration: minutes and two-digit seconds from a
/// minute on, whole seconds from a second on, milliseconds below.
pub fn format_duration_short(d: Duration) -> (r: String)
    ensures
        r@ == duration_text(duration_millis(d)),
{
    let ms = as_millis(&d);
    let secs = ms / 1000;
    if secs >= 60 {
        let m = u128_text(secs / 60);
        let mut r = concat2(m.as_str(), "m");
        if secs % 60 < 10 {
            append_str(&mut r, "0");
        }
        let s = u128_text(secs % 60);
        append_str(&mut r, s.as_str());
        append_str(&mut r, "s");
        r
    } else if ms >= 1000 {
        let s = u128_text(secs);
        concat2(s.as_str(), "s")
    } else {
        let s = u128_text(ms);
        concat2(s.as_str(), "ms")
    }
}

/// The short text of a duration given in milliseconds.
pub fn format_duration_ms(ms: u64) -> (r: String)
    ensures
        r@ == duration_text(ms as nat),
{
    let secs = ms / 1000;
    if secs >= 60 {
        let m = u64_text(secs / 60);
        let mut r = concat2(m.as_str(), "m");
        if secs % 60 < 10 {
            append_str(&mut r, "0");
        }
        let s = u64_text(secs % 60);
        append_str(&mut r, s.as_str());
        append_str(&mut r, "s");
        r
    } else if ms >= 1000 {
        let s = u64_text(secs);
        concat2(s.as_str(), "s")
    } else {
        let s = u64_text(ms);
        concat2(s.as_str(), "ms")
    }
}

/// How a tool call is shown: a shell command as `bash: <command>`, cut to
/// its first 57 characters and `...` when it is longer than 60 bytes; any
/// other call by the tool's name.
pub open spec fn tool_label(tool: Seq<char>, command: Option<Seq<char>>) -> Seq<char> {
    if tool == "bash"@ || tool == "execute_command"@ {
        match command {
            Some(c) => "bash: "@ + if vstd::utf8::encode_utf8(c).len() > 60 {
                (if c.len() < 57 { c } else { c.take(57) }) + "..."@
            } else {
                c
            },
            None => tool,
        }
    } else {
        tool
    }
}

/// The label of a tool call, from the tool's name and, for a shell tool,
/// the `command` argument.
pub fn tool_display_name(tool_name: &str, command: Option<&str>) -> (r: String)
    requires
        command matches Some(c) ==> c.spec_bytes().len() <= usize::MAX,
    ensures
        r@ == tool_label(tool_name@, match command {
            Some(c) => Some(c@),
            None => None,
        }),
{
    if crate::text::str_eq(tool_name, "bash") || crate::text::str_eq(tool_name, "execute_command") {
        match command {
            Some(c) => {
                let shown = if c.len() > 60 {
                    let cs = crate::text::chars_of(c);
                    let n: usize = if cs.len() < 57 { cs.len() } else { 57 };
                    let mut t = crate::text::string_from_range(&cs, 0, n);
                    append_str(&mut t, "...");
                    proof {
                        if cs@.len() >= 57 {
                            assert(cs@.take(57) =~= cs@.subrange(0, n as int));
                        } else {
                            assert(cs@ =~= cs@.subrange(0, n as int));
                        }
                    }
                    t
                } else {
                    owned(c)
                };
                return concat2("bash: ", shown.as_str());
            },
            None => {},
        }
    }
    owned(tool_name)
}

} // verus!
