use vstd::prelude::*;

use crate::text::{
    chars_of, contains, contains_exec, decimal, find_char, first_at, lemma_first_at_unique,
    lemma_pieces_nonempty, occurs_at, parse_u16, parse_u16_spec, pieces, push_decimal, push_str,
    slice_of, split_pieces, starts_with, string_of, strip_cr, trim, trim_exec, views, Strip,
};

verus! {

/// The port used when the configuration names none.
pub const DEFAULT_PORT: u16 = 993;

/// Where to log in, and as whom.
pub struct Creds {
    pub host: String,
    pub port: u16,
    pub user: String,
    pub pass: String,
}

/// Why credentials could not be resolved.
#[derive(Debug, Clone, Copy, PartialEq, Eq, Structural)]
pub enum ConfigError {
    /// The configuration could not be opened or read.
    Unreadable,
    /// A port is not a 16-bit unsigned number.
    MalformedPort,
    /// The password command could not be run.
    CommandFailed,
}

/// What a `Creds` holds.
pub struct CredsView {
    pub host: Seq<char>,
    pub port: u16,
    pub user: Seq<char>,
    pub pass: Seq<char>,
}

impl View for Creds {
    type V = CredsView;

    open spec fn view(&self) -> CredsView {
        CredsView { host: self.host@, port: self.port, user: self.user@, pass: self.pass@ }
    }
}

pub open spec fn default_creds() -> CredsView {
    CredsView {
        host: Seq::<char>::empty(),
        port: DEFAULT_PORT,
        user: Seq::<char>::empty(),
        pass: Seq::<char>::empty(),
    }
}

/// The host name and the port that `urlparse` reads from a URL.
pub uninterp spec fn url_host_port(url: Seq<char>) -> (Option<Seq<char>>, Option<u16>);

pub open spec fn opt_view(o: Option<String>) -> Option<Seq<char>> {
    match o {
        Some(s) => Some(s@),
        None => None,
    }
}

/// Relies on `urlparse::urlparse`, for the (lower-cased) host name and the
/// port of a URL; it never fails.
#[verifier::external_body]
fn url_parts(url: &str) -> (r: (Option<String>, Option<u16>))
    ensures
        opt_view(r.0) == url_host_port(url@).0,
        r.1 == url_host_port(url@).1,
{
    let u = urlparse::urlparse(url);
    (u.hostname, u.port)
}

/// A value with surrounding whitespace, then single quotes, then double
/// quotes taken off.
pub open spec fn unquote(v: Seq<char>) -> Seq<char> {
    trim(trim(trim(v, Strip::Space), Strip::Char('\'')), Strip::Char('"'))
}

/// The value of a `key = value` line: what follows its first `=`, unquoted.
pub open spec fn directive_value(l: Seq<char>) -> Option<Seq<char>> {
    if exists|i: int| first_at(l, '=', i) {
        let i = choose|i: int| first_at(l, '=', i);
        Some(unquote(l.skip(i + 1)))
    } else {
        None
    }
}

/// `c` with the host and port that a location names put in, where it names
/// them.
pub open spec fn with_location(c: CredsView, host: Option<Seq<char>>, port: Option<u16>) -> CredsView {
    CredsView {
        host: match host {
            Some(h) => h,
            None => c.host,
        },
        port: match port {
            Some(p) => p,
            None => c.port,
        },
        user: c.user,
        pass: c.pass,
    }
}

/// What one line of a mutt configuration does to the credentials read so far.
pub open spec fn mutt_line(c: CredsView, l: Seq<char>) -> CredsView {
    let v = directive_value(l);
    let c1 = if contains(l, "imap_pass"@) && v is Some {
        CredsView { pass: v->0, ..c }
    } else {
        c
    };
    let c2 = if contains(l, "imap_user"@) && v is Some {
        CredsView { user: v->0, ..c1 }
    } else {
        c1
    };
    if contains(l, "folder"@) && v is Some {
        with_location(c2, url_host_port(v->0).0, url_host_port(v->0).1)
    } else {
        c2
    }
}

pub open spec fn mutt_fold(ls: Seq<Seq<char>>) -> CredsView
    decreases ls.len(),
{
    if ls.len() == 0 {
        default_creds()
    } else {
        mutt_line(mutt_fold(ls.drop_last()), ls.last())
    }
}

/// The credentials that a mutt configuration gives, line by line.
pub open spec fn mutt_creds(text: Seq<char>) -> CredsView {
    mutt_fold(pieces(text))
}

/// The lines of a stream: its pieces between newlines, each without a
/// trailing carriage return.
pub open spec fn stream_lines(t: Seq<char>) -> Seq<Seq<char>> {
    pieces(t).map_values(|p: Seq<char>| strip_cr(p))
}

/// What one line after the first does to the credentials read from a stream:
/// `user:<name>` sets the user, `imap:<host>[:<port>]` the host and maybe the
/// port; `None` where the port is not a 16-bit unsigned number.
pub open spec fn stream_line(c: CredsView, l: Seq<char>) -> Option<CredsView> {
    if occurs_at(l, "user:"@, 0) {
        Some(CredsView { user: l.skip(5), ..c })
    } else if occurs_at(l, "imap:"@, 0) {
        let h = l.skip(5);
        if exists|i: int| first_at(h, ':', i) {
            let i = choose|i: int| first_at(h, ':', i);
            match parse_u16_spec(h.skip(i + 1)) {
                Some(p) => Some(CredsView { host: h.take(i), port: p, ..c }),
                None => None,
            }
        } else {
            Some(CredsView { host: h, ..c })
        }
    } else {
        Some(c)
    }
}

pub open spec fn stream_fold(c0: CredsView, ls: Seq<Seq<char>>) -> Option<CredsView>
    decreases ls.len(),
{
    if ls.len() == 0 {
        Some(c0)
    } else {
        match stream_fold(c0, ls.drop_last()) {
            Some(c) => stream_line(c, ls.last()),
            None => None,
        }
    }
}

/// The credentials that a stream gives: the password is its first line,
/// trimmed; the other lines are read by `stream_line`.
pub open spec fn stream_creds(t: Seq<char>) -> Option<CredsView> {
    let ls = stream_lines(t);
    stream_fold(CredsView { pass: trim(ls[0], Strip::Space), ..default_creds() }, ls.skip(1))
}

/// The command that a password names: a password that starts with a backtick
/// is a shell command, with its backticks taken off.
pub open spec fn pass_command_spec(p: Seq<char>) -> Option<Seq<char>> {
    if p.len() > 0 && p[0] == '`' {
        Some(trim(p, Strip::Char('`')))
    } else {
        None
    }
}

/// The first line of a non-empty output, as `str::lines` cuts it.
pub open spec fn first_line(t: Seq<char>) -> Seq<char> {
    if pieces(t).len() > 1 {
        strip_cr(pieces(t)[0])
    } else {
        pieces(t)[0]
    }
}

/// The text that stands for credentials in diagnostics: the host and the port,
/// never the user or the password.
pub open spec fn describe_spec(c: CredsView) -> Seq<char> {
    described(debug_text(c.host), c.port)
}

/// The diagnostic text for a host already written as `Debug` writes it.
pub open spec fn described(quoted_host: Seq<char>, port: u16) -> Seq<char> {
    "Creds { host: "@ + quoted_host + ", port: "@ + decimal(port as nat) + " }"@
}

/// How `Debug` writes a string: in double quotes, with escapes.
pub uninterp spec fn debug_text(s: Seq<char>) -> Seq<char>;

/// Relies on `str`'s `Debug`, which writes the string in double quotes and
/// escapes what needs it; the result depends on the characters alone.
#[verifier::external_body]
fn debug_quoted(s: &str) -> (r: String)
    ensures
        r@ == debug_text(s@),
{
    format!("{:?}", s)
}

proof fn lemma_fold_stays_failed(c0: CredsView, ls: Seq<Seq<char>>, k: int)
    requires
        0 <= k <= ls.len(),
        stream_fold(c0, ls.take(k)) is None,
    ensures
        stream_fold(c0, ls) is None,
    decreases ls.len() - k,
{
    if k < ls.len() {
        assert(ls.take(k + 1).drop_last() =~= ls.take(k));
        lemma_fold_stays_failed(c0, ls, k + 1);
    } else {
        assert(ls.take(k) =~= ls);
    }
}

fn strip_cr_exec(l: &Vec<char>) -> (r: Vec<char>)
    ensures
        r@ == strip_cr(l@),
{
    if l.len() > 0 && l[l.len() - 1] == '\r' {
        let r = slice_of(l, 0, l.len() - 1);
        proof {
            assert(r@ =~= l@.drop_last());
        }
        r
    } else {
        slice_of(l, 0, l.len())
    }
}

fn directive_value_exec(l: &Vec<char>) -> (r: Option<Vec<char>>)
    ensures
        match r {
            Some(v) => directive_value(l@) == Some(v@),
            None => directive_value(l@) is None,
        },
{
    match find_char(l, '=') {
        Some(i) => {
            assert(first_at(l@, '=', i as int));
            assert(i < l.len());
            let rest = slice_of(l, i + 1, l.len());
            let a = trim_exec(&rest, Strip::Space);
            let b = trim_exec(&a, Strip::Char('\''));
            let v = trim_exec(&b, Strip::Char('"'));
            proof {
                let k = choose|k: int| first_at(l@, '=', k);
                lemma_first_at_unique(l@, '=', i as int, k);
                assert(rest@ =~= l@.skip(i + 1));
            }
            Some(v)
        },
        None => None,
    }
}

impl Creds {
    /// The credentials before any configuration is read: no host, user or
    /// password, and the default port.
    pub fn empty() -> (r: Creds)
        ensures
            r@ == default_creds(),
    {
        Creds { host: String::new(), port: DEFAULT_PORT, user: String::new(), pass: String::new() }
    }

    /// Takes the host and the port that a mailbox location names, where it
    /// names them.
    pub fn apply_location(&mut self, host: Option<String>, port: Option<u16>)
        ensures
            final(self)@ == with_location(old(self)@, opt_view(host), port),
    {
        if let Some(h) = host {
            self.host = h;
        }
        if let Some(p) = port {
            self.port = p;
        }
    }

    /// Reads credentials from the text of a mutt configuration. Lines that
    /// hold `imap_pass`, `imap_user` or `folder` and an `=` set the password,
    /// the user, or the host and port of the folder's URL; other lines are
    /// ignored, and the last line of a kind wins.
    pub fn from_mutt(text: &str) -> (r: Creds)
        ensures
            r@ == mutt_creds(text@),
    {
        let t = chars_of(text);
        let lines = split_pieces(&t);
        let pass_key = chars_of("imap_pass");
        let user_key = chars_of("imap_user");
        let folder_key = chars_of("folder");
        let mut c = Creds::empty();
        let mut i: usize = 0;
        while i < lines.len()
            invariant
                i <= lines.len(),
                views(lines@) == pieces(text@),
                pass_key@ == "imap_pass"@,
                user_key@ == "imap_user"@,
                folder_key@ == "folder"@,
                c@ == mutt_fold(views(lines@).take(i as int)),
            decreases lines.len() - i,
        {
            let l = &lines[i];
            let ghost before = c@;
            proof {
                assert(views(lines@).take(i as int + 1).drop_last() =~= views(lines@).take(
                    i as int,
                ));
                assert(views(lines@)[i as int] == l@);
            }
            let v = directive_value_exec(l);
            if let Some(val) = &v {
                if contains_exec(l, &pass_key) {
                    c.pass = string_of(val);
                }
                if contains_exec(l, &user_key) {
                    c.user = string_of(val);
                }
                if contains_exec(l, &folder_key) {
                    let url = string_of(val);
                    let (h, p) = url_parts(url.as_str());
                    c.apply_location(h, p);
                }
            }
            proof {
                assert(c@ == mutt_line(before, l@));
            }
            i = i + 1;
        }
        proof {
            assert(views(lines@).take(lines.len() as int) =~= views(lines@));
        }
        c
    }

    /// Reads credentials from what a user typed: the password on the first
    /// line, then `user:<name>` and `imap:<host>[:<port>]` lines, in any
    /// order; other lines are ignored and the last line of a kind wins.
    pub fn from_stdin(input: &str) -> (r: Result<Creds, ConfigError>)
        ensures
            match r {
                Ok(c) => stream_creds(input@) == Some(c@),
                Err(e) => stream_creds(input@) is None && e == ConfigError::MalformedPort,
            },
    {
        let t = chars_of(input);
        let raw = split_pieces(&t);
        proof {
            lemma_pieces_nonempty(t@);
        }
        let ghost ls = stream_lines(input@);
        let first = strip_cr_exec(&raw[0]);
        let mut c = Creds::empty();
        c.pass = string_of(&trim_exec(&first, Strip::Space));
        let ghost c0 = c@;
        proof {
            assert(c0 == CredsView { pass: trim(ls[0], Strip::Space), ..default_creds() });
            assert(ls.skip(1).take(0) =~= Seq::<Seq<char>>::empty());
        }
        let user_key = chars_of("user:");
        let imap_key = chars_of("imap:");
        let mut i: usize = 1;
        while i < raw.len()
            invariant
                1 <= i <= raw.len(),
                views(raw@) == pieces(input@),
                ls == stream_lines(input@),
                ls.len() == raw.len(),
                c0 == (CredsView { pass: trim(ls[0], Strip::Space), ..default_creds() }),
                user_key@ == "user:"@,
                imap_key@ == "imap:"@,
                stream_fold(c0, ls.skip(1).take(i - 1)) == Some(c@),
            decreases raw.len() - i,
        {
            let l = strip_cr_exec(&raw[i]);
            let ghost before = c@;
            proof {
                reveal_strlit("user:");
                reveal_strlit("imap:");
                assert(views(raw@)[i as int] == raw@[i as int]@);
                assert(l@ == ls[i as int]);
                assert(ls.skip(1).take(i as int).drop_last() =~= ls.skip(1).take(i - 1));
                assert(ls.skip(1).take(i as int).last() == ls[i as int]);
            }
            if starts_with(&l, &user_key) {
                c.user = string_of(&slice_of(&l, 5, l.len()));
                proof {
                    assert(l@.subrange(5, l@.len() as int) =~= l@.skip(5));
                }
            } else if starts_with(&l, &imap_key) {
                let h = slice_of(&l, 5, l.len());
                proof {
                    assert(h@ =~= l@.skip(5));
                }
                match find_char(&h, ':') {
                    Some(k) => {
                        assert(first_at(h@, ':', k as int));
                        assert(k < h.len());
                        let tail = slice_of(&h, k + 1, h.len());
                        proof {
                            let j = choose|j: int| first_at(h@, ':', j);
                            lemma_first_at_unique(h@, ':', k as int, j);
                            assert(tail@ =~= h@.skip(k + 1));
                        }
                        match parse_u16(&tail) {
                            Some(p) => {
                                c.host = string_of(&slice_of(&h, 0, k));
                                c.port = p;
                                proof {
                                    assert(h@.subrange(0, k as int) =~= h@.take(k as int));
                                }
                            },
                            None => {
                                proof {
                                    assert(stream_fold(c0, ls.skip(1).take(i as int)) is None);
                                    lemma_fold_stays_failed(c0, ls.skip(1), i as int);
                                    assert(ls.skip(1) =~= stream_lines(input@).skip(1));
                                }
                                return Err(ConfigError::MalformedPort);
                            },
                        }
                    },
                    None => {
                        c.host = string_of(&h);
                    },
                }
            }
            proof {
                assert(stream_line(before, l@) == Some(c@));
            }
            i = i + 1;
        }
        proof {
            assert(ls.skip(1).take(i - 1) =~= ls.skip(1));
        }
        Ok(c)
    }

    /// The shell command that stands for the password, if the password is
    /// one.
    pub fn pass_command(&self) -> (r: Option<String>)
        ensures
            opt_view(r) == pass_command_spec(self.pass@),
    {
        let p = chars_of(self.pass.as_str());
        if p.len() > 0 && p[0] == '`' {
            Some(string_of(&trim_exec(&p, Strip::Char('`'))))
        } else {
            None
        }
    }

    /// Takes the first line of a password command's output as the password.
    pub fn set_pass_from_output(&mut self, output: &str)
        requires
            output@.len() > 0,
        ensures
            final(self)@ == (CredsView { pass: first_line(output@), ..old(self)@ }),
    {
        let t = chars_of(output);
        let ps = split_pieces(&t);
        proof {
            lemma_pieces_nonempty(t@);
            assert(views(ps@)[0] == ps@[0]@);
        }
        if ps.len() > 1 {
            self.pass = string_of(&strip_cr_exec(&ps[0]));
        } else {
            self.pass = string_of(&ps[0]);
        }
    }

    /// The host and the port, for diagnostics, as
    /// `Creds { host: "example.com", port: 993 }`; the user and the password
    /// never appear.
    pub fn describe(&self) -> (r: String)
        ensures
            r@ == describe_spec(self@),
    {
        let quoted = debug_quoted(self.host.as_str());
        Creds::describe_quoted(quoted.as_str(), self.port)
    }

    /// The diagnostic text for a host already written as `Debug` writes a
    /// string, and a port.
    pub fn describe_quoted(quoted_host: &str, port: u16) -> (r: String)
        ensures
            r@ == described(quoted_host@, port),
    {
        let mut out: Vec<char> = Vec::new();
        push_str(&mut out, "Creds { host: ");
        push_str(&mut out, quoted_host);
        push_str(&mut out, ", port: ");
        push_decimal(&mut out, port as u64);
        push_str(&mut out, " }");
        proof {
            assert(out@ =~= described(quoted_host@, port));
        }
        string_of(&out)
    }
}

} // verus!
