use vstd::prelude::*;

use crate::text::{decimal, push_decimal, push_str, string_of};

verus! {

/// The two JSON encodings of a status line.
#[derive(Debug, Clone, Copy, PartialEq, Eq, Structural)]
pub enum OutputMode {
    /// `{"full_text": "(<unread>) <total>", "color": "<accent or empty>"}`
    I3,
    /// `{"text": "(<unread>) <total>", "alt": "<true|false>"}`
    Waybar,
}

/// The value of the field that flags unread mail.
pub open spec fn flag_text(mode: OutputMode, unread: bool) -> Seq<char> {
    match mode {
        OutputMode::I3 => if unread {
            "#00cc00"@
        } else {
            ""@
        },
        OutputMode::Waybar => if unread {
            "true"@
        } else {
            "false"@
        },
    }
}

/// Everything of a status line up to the value of its flag field.
pub open spec fn status_head(mode: OutputMode, unread: nat, total: nat) -> Seq<char> {
    match mode {
        OutputMode::I3 => "{\"full_text\": \"("@ + decimal(unread) + ") "@ + decimal(total)
            + "\", \"color\": \""@,
        OutputMode::Waybar => "{\"text\": \"("@ + decimal(unread) + ") "@ + decimal(total)
            + "\", \"alt\": \""@,
    }
}

/// The status line for `unread` unseen messages out of `total`.
pub open spec fn status_spec(mode: OutputMode, unread: nat, total: nat) -> Seq<char> {
    status_head(mode, unread, total) + flag_text(mode, unread > 0) + "\"}"@
}

impl OutputMode {
    /// Renders the status line for `unread` unseen messages out of `total`.
    pub fn render_status(&self, unread: u64, total: u32) -> (r: String)
        ensures
            r@ == status_spec(*self, unread as nat, total as nat),
    {
        let mut out: Vec<char> = Vec::new();
        let flagged = unread > 0;
        match self {
            OutputMode::I3 => {
                push_str(&mut out, "{\"full_text\": \"(");
                push_decimal(&mut out, unread);
                push_str(&mut out, ") ");
                push_decimal(&mut out, total as u64);
                push_str(&mut out, "\", \"color\": \"");
                if flagged {
                    push_str(&mut out, "#00cc00");
                } else {
                    push_str(&mut out, "");
                }
            },
            OutputMode::Waybar => {
                push_str(&mut out, "{\"text\": \"(");
                push_decimal(&mut out, unread);
                push_str(&mut out, ") ");
                push_decimal(&mut out, total as u64);
                push_str(&mut out, "\", \"alt\": \"");
                if flagged {
                    push_str(&mut out, "true");
                } else {
                    push_str(&mut out, "false");
                }
            },
        }
        push_str(&mut out, "\"}");
        proof {
            assert(out@ =~= status_spec(*self, unread as nat, total as nat));
        }
        string_of(&out)
    }
}

/// `t` ends with `s`.
pub open spec fn ends_with(t: Seq<char>, s: Seq<char>) -> bool {
    t.len() >= s.len() && t.subrange(t.len() - s.len(), t.len() as int) == s
}

/// The end of a status line whose flag is on: the accent colour, or `alt`
/// true.
pub open spec fn flag_on_tail(mode: OutputMode) -> Seq<char> {
    flag_text(mode, true) + "\"}"@
}

/// A status line flags unread mail exactly when there is some, whatever the
/// total: with none it carries no accent colour (`alt` is false), with any it
/// carries the accent colour (`alt` is true).
pub proof fn lemma_flag_tracks_unread(mode: OutputMode, unread: nat, total: nat)
    ensures
        ends_with(status_spec(mode, unread, total), flag_on_tail(mode)) <==> unread > 0,
        unread == 0 ==> ends_with(
            status_spec(mode, unread, total),
            flag_text(mode, false) + "\"}"@,
        ),
{
    reveal_strlit("#00cc00");
    reveal_strlit("true");
    reveal_strlit("false");
    reveal_strlit("");
    reveal_strlit("\"}");
    reveal_strlit("\", \"color\": \"");
    reveal_strlit("\", \"alt\": \"");
    let t = status_spec(mode, unread, total);
    let h = status_head(mode, unread, total);
    let tail = "\"}"@;
    let on = flag_on_tail(mode);
    let off = flag_text(mode, false) + tail;
    let f = flag_text(mode, unread > 0);
    assert(t == h + f + tail);
    if unread > 0 {
        assert(t.subrange(t.len() - on.len(), t.len() as int) =~= on);
    } else {
        assert(t.subrange(t.len() - off.len(), t.len() as int) =~= off);
        match mode {
            OutputMode::I3 => {
                let q = "\", \"color\": \""@;
                assert(h == "{\"full_text\": \"("@ + decimal(unread) + ") "@ + decimal(total) + q);
                assert(h.last() == q.last());
                assert(t.len() == h.len() + 2);
                if t.len() >= on.len() {
                    assert(t[t.len() - 3] == h.last());
                    assert(t.subrange(t.len() - on.len(), t.len() as int)[6] != on[6]);
                }
            },
            OutputMode::Waybar => {
                assert(t.len() >= 7);
                assert(t[t.len() - 6] == 'a');
                assert(t.subrange(t.len() - on.len(), t.len() as int)[0] != on[0]);
            },
        }
    }
}

} // verus!
