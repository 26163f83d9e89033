//! The free-text connection-spec parser: turns a pasted command line such as
//! `ssh -p 2201 -i ~/.ssh/key deploy@1.2.3.4 uptime` into structured fields.
//!
//! The grammar: tokens are split on whitespace, an optional leading `ssh`
//! token is skipped, `-p`/`-i`/`-J` consume one value each, any other
//! dash-token is an option (heuristically paired with a following value),
//! the first non-dash token is the target, flags are still recognized after
//! the target, and the first unrecognized token after the target starts the
//! remote command.

use vstd::prelude::*;

use crate::errors::AppError;
use crate::text;
use crate::text::{spec_join, spec_parse_u16, spec_tokens, views_of};

verus! {

/// The structured result of parsing a connection string.
#[derive(Clone, Debug, PartialEq)]
pub struct SshSpec {
    pub address: String,
    pub user: Option<String>,
    pub port: Option<u16>,
    pub key_path: Option<String>,
    pub options: Vec<String>,
    pub bastion: Option<String>,
    pub remote_command: Option<String>,
}

/// The mathematical value of an [`SshSpec`].
#[verifier::ext_equal]
pub struct SshSpecV {
    pub address: Seq<char>,
    pub user: Option<Seq<char>>,
    pub port: Option<u16>,
    pub key_path: Option<Seq<char>>,
    pub options: Seq<Seq<char>>,
    pub bastion: Option<Seq<char>>,
    pub remote_command: Option<Seq<char>>,
}

impl View for SshSpec {
    type V = SshSpecV;

    open spec fn view(&self) -> SshSpecV {
        SshSpecV {
            address: self.address@,
            user: text::opt_view(self.user),
            port: self.port,
            key_path: text::opt_view(self.key_path),
            options: text::strs_of(self.options@),
            bastion: text::opt_view(self.bastion),
            remote_command: text::opt_view(self.remote_command),
        }
    }
}

/// Relies on `char::is_alphanumeric`: the Unicode `Alphabetic` and numeric
/// classes, a function of the character alone.
#[verifier::external_body]
fn alnum(c: char) -> (r: bool)
    ensures
        r == is_alnum(c),
{
    c.is_alphanumeric()
}

pub uninterp spec fn is_alnum(c: char) -> bool;

/// The flag/option accumulator carried through a scan.
#[verifier::ext_equal]
pub struct ScanSt {
    pub port: Option<u16>,
    pub key_path: Option<Seq<char>>,
    pub bastion: Option<Seq<char>>,
    pub options: Seq<Seq<char>>,
}

/// The empty accumulator a scan starts from.
pub open spec fn scan_init() -> ScanSt {
    ScanSt { port: None, key_path: None, bastion: None, options: Seq::empty() }
}

pub open spec fn flag_port() -> Seq<char> {
    seq!['-', 'p']
}

pub open spec fn flag_key() -> Seq<char> {
    seq!['-', 'i']
}

pub open spec fn flag_jump() -> Seq<char> {
    seq!['-', 'J']
}

pub open spec fn spec_ssh_word() -> Seq<char> {
    seq!['s', 's', 'h']
}

pub open spec fn starts_dash(t: Seq<char>) -> bool {
    t.len() > 0 && t[0] == '-'
}

/// Whether a token following an unrecognized option is taken as that
/// option's value: not a flag, not a target, and holding at least one
/// alphanumeric, `:` or `/` character.
pub open spec fn spec_pairable(t: Seq<char>) -> bool {
    &&& !starts_dash(t)
    &&& !t.contains('@')
    &&& exists|i: int| 0 <= i < t.len() && (is_alnum(t[i]) || t[i] == ':' || t[i] == '/')
}

/// One scan step on a dash token: how the accumulator changes and where the
/// scan continues.
pub open spec fn spec_flag_step(toks: Seq<Seq<char>>, i: int, st: ScanSt) -> (ScanSt, int)
    recommends
        0 <= i < toks.len(),
{
    let t = toks[i];
    if t == flag_port() {
        if i + 1 < toks.len() {
            (ScanSt { port: spec_parse_u16(toks[i + 1]), ..st }, i + 2)
        } else {
            (st, i + 1)
        }
    } else if t == flag_key() {
        if i + 1 < toks.len() {
            (ScanSt { key_path: Some(toks[i + 1]), ..st }, i + 2)
        } else {
            (st, i + 1)
        }
    } else if t == flag_jump() {
        if i + 1 < toks.len() {
            (ScanSt { bastion: Some(toks[i + 1]), ..st }, i + 2)
        } else {
            (st, i + 1)
        }
    } else {
        if i + 1 < toks.len() && spec_pairable(toks[i + 1]) {
            (ScanSt { options: st.options + seq![t, toks[i + 1]], ..st }, i + 2)
        } else {
            (ScanSt { options: st.options.push(t), ..st }, i + 1)
        }
    }
}

/// The outcome of scanning for the target token.
pub enum TargetScan {
    /// No non-dash token was found: the spec has no target.
    Missing,
    /// The target, the index after it, and the accumulator so far.
    Found { target: Seq<char>, next: int, st: ScanSt },
}

/// Scans from `i` for the first non-dash token, handling flags on the way.
pub open spec fn spec_scan_target(toks: Seq<Seq<char>>, i: int, st: ScanSt) -> TargetScan
    decreases toks.len() - i,
{
    if i < 0 || i >= toks.len() {
        TargetScan::Missing
    } else if starts_dash(toks[i]) {
        let (st2, i2) = spec_flag_step(toks, i, st);
        spec_scan_target(toks, i2, st2)
    } else {
        TargetScan::Found { target: toks[i], next: i + 1, st }
    }
}

/// The outcome of scanning past the target: the final accumulator and where
/// the remote command starts, if anywhere.
pub struct RestScan {
    pub st: ScanSt,
    pub remote: Option<int>,
}

/// Scans from `i` past the target, handling flags, until an unrecognized
/// token starts the remote command.
pub open spec fn spec_scan_rest(toks: Seq<Seq<char>>, i: int, st: ScanSt) -> RestScan
    decreases toks.len() - i,
{
    if i < 0 || i >= toks.len() {
        RestScan { st, remote: None }
    } else if starts_dash(toks[i]) {
        let (st2, i2) = spec_flag_step(toks, i, st);
        spec_scan_rest(toks, i2, st2)
    } else {
        RestScan { st, remote: Some(i) }
    }
}

/// The first index of `c` in `s`, or `-1` when absent.
pub open spec fn spec_find_char(s: Seq<char>, c: char) -> int
    decreases s.len(),
{
    if s.len() == 0 {
        -1
    } else if s[0] == c {
        0
    } else {
        let r = spec_find_char(s.drop_first(), c);
        if r == -1 {
            -1
        } else {
            r + 1
        }
    }
}

/// What `spec_find_char` finds: the first index holding `c`.
pub proof fn lemma_find_char(s: Seq<char>, c: char)
    ensures
        spec_find_char(s, c) == -1 ==> forall|i: int| 0 <= i < s.len() ==> s[i] != c,
        spec_find_char(s, c) != -1 ==> {
            let r = spec_find_char(s, c);
            &&& 0 <= r < s.len()
            &&& s[r] == c
            &&& forall|i: int| 0 <= i < r ==> s[i] != c
        },
    decreases s.len(),
{
    if s.len() == 0 {
    } else if s[0] == c {
    } else {
        lemma_find_char(s.drop_first(), c);
        let r = spec_find_char(s.drop_first(), c);
        if r == -1 {
            assert forall|i: int| 0 <= i < s.len() implies s[i] != c by {
                if i > 0 {
                    assert(s.drop_first()[i - 1] == s[i]);
                }
            }
        } else {
            assert(s.drop_first()[r] == s[r + 1]);
            assert forall|i: int| 0 <= i < r + 1 implies s[i] != c by {
                if i > 0 {
                    assert(s.drop_first()[i - 1] == s[i]);
                }
            }
        }
    }
}

/// What parsing a connection string yields: `None` when no target token
/// exists, else the structured spec. The target splits on its first `@`
/// into user and address; the remote command is the space-joined tail.
pub open spec fn spec_parse(s: Seq<char>) -> Option<SshSpecV> {
    let toks = spec_tokens(s);
    let start: int = if toks.len() > 0 && toks[0] == spec_ssh_word() {
        1
    } else {
        0
    };
    match spec_scan_target(toks, start, scan_init()) {
        TargetScan::Missing => None,
        TargetScan::Found { target, next, st } => {
            let rest = spec_scan_rest(toks, next, st);
            let k = spec_find_char(target, '@');
            Some(
                SshSpecV {
                    address: if k == -1 {
                        target
                    } else {
                        target.skip(k + 1)
                    },
                    user: if k == -1 {
                        None
                    } else {
                        Some(target.take(k))
                    },
                    port: rest.st.port,
                    key_path: rest.st.key_path,
                    options: rest.st.options,
                    bastion: rest.st.bastion,
                    remote_command: match rest.remote {
                        Some(ri) => Some(spec_join(toks.skip(ri), seq![' '])),
                        None => None,
                    },
                },
            )
        },
    }
}

/// The accumulator of a running scan, in executable form.
struct ScanState {
    port: Option<u16>,
    key_path: Option<Vec<char>>,
    bastion: Option<Vec<char>>,
    options: Vec<Vec<char>>,
}

/// The view of an optional character vector.
pub open spec fn opt_chars_view(o: Option<Vec<char>>) -> Option<Seq<char>> {
    match o {
        Some(v) => Some(v@),
        None => None,
    }
}

impl View for ScanState {
    type V = ScanSt;

    closed spec fn view(&self) -> ScanSt {
        ScanSt {
            port: self.port,
            key_path: opt_chars_view(self.key_path),
            bastion: opt_chars_view(self.bastion),
            options: views_of(self.options@),
        }
    }
}

/// Whether `t` is the two-character token `-c`.
fn is_flag(t: &Vec<char>, c: char) -> (r: bool)
    ensures
        r == (t@ == seq!['-', c]),
{
    if t.len() == 2 && t[0] == '-' && t[1] == c {
        proof {
            assert(t@ =~= seq!['-', c]);
        }
        true
    } else {
        proof {
            if t@ == seq!['-', c] {
                assert(t@.len() == 2);
                assert(t@[0] == '-' && t@[1] == c);
            }
        }
        false
    }
}

/// Whether a token is heuristically taken as the preceding option's value.
fn pairable(t: &Vec<char>) -> (r: bool)
    ensures
        r == spec_pairable(t@),
{
    if t.len() > 0 && t[0] == '-' {
        return false;
    }
    if text::contains_char(t, '@') {
        return false;
    }
    let mut i: usize = 0;
    while i < t.len()
        invariant
            i <= t@.len(),
            !starts_dash(t@),
            !t@.contains('@'),
            forall|j: int| 0 <= j < i ==> !(is_alnum(t@[j]) || t@[j] == ':' || t@[j] == '/'),
        decreases t@.len() - i,
    {
        let c = t[i];
        if alnum(c) || c == ':' || c == '/' {
            proof {
                assert(is_alnum(t@[i as int]) || t@[i as int] == ':' || t@[i as int] == '/');
            }
            return true;
        }
        i += 1;
    }
    false
}

/// Performs one scan step on the dash token at `i`.
fn flag_step(toks: &Vec<Vec<char>>, i: usize, st: &mut ScanState) -> (i2: usize)
    requires
        i < toks@.len(),
    ensures
        ({
            let (s2, j2) = spec_flag_step(views_of(toks@), i as int, old(st)@);
            final(st)@ == s2 && i2 as int == j2
        }),
        i < i2 <= toks@.len(),
{
    let ghost tv = views_of(toks@);
    let n = toks.len();
    let t = &toks[i];
    proof {
        assert(n == tv.len());
        assert(tv[i as int] == t@);
    }
    if is_flag(t, 'p') {
        if i + 1 < toks.len() {
            st.port = text::parse_u16(&toks[i + 1]);
            proof {
                assert(tv[i + 1 as int] == toks@[i + 1 as int]@);
            }
            i + 2
        } else {
            i + 1
        }
    } else if is_flag(t, 'i') {
        if i + 1 < toks.len() {
            st.key_path = Some(text::subvec(&toks[i + 1], 0, toks[i + 1].len()));
            proof {
                assert(st@.key_path == Some(tv[i + 1 as int]));
            }
            i + 2
        } else {
            i + 1
        }
    } else if is_flag(t, 'J') {
        if i + 1 < toks.len() {
            st.bastion = Some(text::subvec(&toks[i + 1], 0, toks[i + 1].len()));
            proof {
                assert(st@.bastion == Some(tv[i + 1 as int]));
            }
            i + 2
        } else {
            i + 1
        }
    } else {
        let ghost old_opts = st@.options;
        let tcopy = text::subvec(t, 0, t.len());
        proof {
            assert(tcopy@ =~= tv[i as int]);
        }
        st.options.push(tcopy);
        if i + 1 < toks.len() && pairable(&toks[i + 1]) {
            let vcopy = text::subvec(&toks[i + 1], 0, toks[i + 1].len());
            proof {
                assert(vcopy@ =~= tv[i + 1 as int]);
            }
            st.options.push(vcopy);
            proof {
                assert(st@.options =~= old_opts + seq![tv[i as int], tv[i + 1 as int]]);
            }
            i + 2
        } else {
            proof {
                assert(st@.options =~= old_opts.push(tv[i as int]));
            }
            i + 1
        }
    }
}

/// Parses a free-text connection string. Fails exactly when no target token
/// is present; the result is `spec_parse` of the input.
pub fn parse_ssh_spec(input: &str) -> (r: Result<SshSpec, AppError>)
    ensures
        r is Ok <==> spec_parse(input@) is Some,
        r is Ok ==> r->Ok_0@ == spec_parse(input@)->0,
        r is Err ==> r->Err_0 == AppError::TargetMissing,
{
    let cs = text::chars_of(input);
    let toks = text::tokenize(&cs);
    let ghost tv = views_of(toks@);
    let start: usize = if toks.len() > 0 && {
        let t0 = &toks[0];
        t0.len() == 3 && t0[0] == 's' && t0[1] == 's' && t0[2] == 'h'
    } {
        proof {
            assert(tv[0] =~= spec_ssh_word());
        }
        1
    } else {
        proof {
            if tv.len() > 0 && tv[0] == spec_ssh_word() {
                assert(toks@[0]@.len() == 3);
                assert(toks@[0]@[0] == 's' && toks@[0]@[1] == 's' && toks@[0]@[2] == 'h');
            }
        }
        0
    };
    let mut st = ScanState { port: None, key_path: None, bastion: None, options: Vec::new() };
    proof {
        assert(st@.options =~= Seq::<Seq<char>>::empty());
        assert(st@ == scan_init());
    }
    let mut i: usize = start;
    let target: Vec<char>;
    loop
        invariant
            start <= i,
            tv == views_of(toks@),
            tv == spec_tokens(input@),
            start as int == (if tv.len() > 0 && tv[0] == spec_ssh_word() {
                1int
            } else {
                0int
            }),
            spec_scan_target(tv, start as int, scan_init()) == spec_scan_target(tv, i as int, st@),
        ensures
            ({
                let found = spec_scan_target(tv, start as int, scan_init());
                &&& found is Found
                &&& i < tv.len()
                &&& tv[i as int] == found->target
                &&& found->next == i + 1
                &&& st@ == found->st
                &&& !starts_dash(tv[i as int])
            }),
        decreases tv.len() - i,
    {
        if i >= toks.len() {
            proof {
                assert(spec_scan_target(tv, i as int, st@) is Missing);
            }
            return Err(AppError::TargetMissing);
        }
        let t = &toks[i];
        proof {
            assert(tv[i as int] == t@);
        }
        if t.len() > 0 && t[0] == '-' {
            i = flag_step(&toks, i, &mut st);
        } else {
            proof {
                assert(!starts_dash(tv[i as int]));
            }
            break ;
        }
    }
    let ghost found = spec_scan_target(tv, start as int, scan_init());
    target = text::subvec(&toks[i], 0, toks[i].len());
    proof {
        assert(target@ =~= found->target);
    }
    let mut i2: usize = i + 1;
    let mut remote_start: Option<usize> = None;
    loop
        invariant_except_break
            remote_start is None,
        invariant
            i2 <= tv.len() + 1,
            tv == views_of(toks@),
            spec_scan_rest(tv, i + 1 as int, found->st) == spec_scan_rest(tv, i2 as int, st@),
        ensures
            ({
                let rest = spec_scan_rest(tv, i + 1 as int, found->st);
                &&& st@ == rest.st
                &&& match rest.remote {
                    Some(ri) => remote_start == Some(ri as usize) && 0 <= ri < tv.len(),
                    None => remote_start is None,
                }
            }),
        decreases tv.len() - i2,
    {
        if i2 >= toks.len() {
            proof {
                assert(spec_scan_rest(tv, i2 as int, st@) == RestScan { st: st@, remote: None::<int> });
            }
            break ;
        }
        let t = &toks[i2];
        proof {
            assert(tv[i2 as int] == t@);
        }
        if t.len() > 0 && t[0] == '-' {
            i2 = flag_step(&toks, i2, &mut st);
        } else {
            proof {
                assert(!starts_dash(tv[i2 as int]));
                assert(spec_scan_rest(tv, i2 as int, st@) == RestScan {
                    st: st@,
                    remote: Some(i2 as int),
                });
            }
            remote_start = Some(i2);
            break ;
        }
    }
    // Split the target on its first '@' into user and address.
    let ghost k = spec_find_char(target@, '@');
    proof {
        lemma_find_char(target@, '@');
    }
    let mut at: usize = 0;
    let mut has_at = false;
    while at < target.len() && !has_at
        invariant
            at <= target@.len(),
            !has_at ==> forall|j: int| 0 <= j < at ==> target@[j] != '@',
            has_at ==> at < target@.len() && target@[at as int] == '@' && forall|j: int|
                0 <= j < at ==> target@[j] != '@',
        decreases target@.len() - at + (if has_at { 0int } else { 1int }),
    {
        if target[at] == '@' {
            has_at = true;
        } else {
            at += 1;
        }
    }
    let user: Option<String>;
    let address: String;
    if has_at {
        proof {
            assert(k == at as int);
        }
        let u = text::subvec(&target, 0, at);
        let a = text::subvec(&target, at + 1, target.len());
        user = Some(text::string_of(&u));
        address = text::string_of(&a);
    } else {
        proof {
            assert(k == -1);
        }
        user = None;
        address = text::string_of(&target);
    }
    // Join the remote-command tail with single spaces.
    proof {
        assert(tv.len() == toks@.len());
    }
    let ghost rest = spec_scan_rest(tv, i + 1 as int, found->st);
    let remote_command: Option<String> = match remote_start {
        Some(ri) => {
            let mut tail: Vec<Vec<char>> = Vec::new();
            let mut j: usize = ri;
            proof {
                assert(views_of(tail@) =~= tv.skip(ri as int).take(0));
            }
            while j < toks.len()
                invariant
                    ri <= j <= toks@.len(),
                    tv == views_of(toks@),
                    ri < tv.len(),
                    views_of(tail@) == tv.skip(ri as int).take(j - ri),
                decreases toks@.len() - j,
            {
                let piece = text::subvec(&toks[j], 0, toks[j].len());
                proof {
                    assert(piece@ =~= tv[j as int]);
                    assert(views_of(tail@.push(piece)) =~= views_of(tail@).push(tv[j as int]));
                    assert(tv.skip(ri as int).take(j + 1 - ri) =~= tv.skip(ri as int).take(j - ri).push(
                        tv[j as int],
                    ));
                }
                tail.push(piece);
                j += 1;
            }
            proof {
                assert(views_of(tail@) =~= tv.skip(ri as int));
            }
            let mut sep: Vec<char> = Vec::new();
            sep.push(' ');
            proof {
                assert(sep@ =~= seq![' ']);
            }
            let joined = text::join_chars(&tail, &sep);
            Some(text::string_of(&joined))
        },
        None => None,
    };
    proof {
        match rest.remote {
            Some(ri) => {
                assert(remote_command is Some);
                assert(remote_command->0@ == spec_join(tv.skip(ri), seq![' ']));
            },
            None => {
                assert(remote_command is None);
            },
        }
    }
    let ghost stv = st@;
    let ScanState { port, key_path, bastion, options } = st;
    proof {
        assert(stv.port == port);
        assert(stv.key_path == opt_chars_view(key_path));
        assert(stv.bastion == opt_chars_view(bastion));
        assert(stv.options == views_of(options@));
    }
    let key_path_s: Option<String> = match key_path {
        Some(v) => Some(text::string_of(&v)),
        None => None,
    };
    let bastion_s: Option<String> = match bastion {
        Some(v) => Some(text::string_of(&v)),
        None => None,
    };
    let mut os: Vec<String> = Vec::new();
    let mut j: usize = 0;
    while j < options.len()
        invariant
            j <= options@.len(),
            os@.len() == j,
            forall|l: int| 0 <= l < j ==> os@[l]@ == options@[l]@,
        decreases options@.len() - j,
    {
        os.push(text::string_of(&options[j]));
        j += 1;
    }
    proof {
        assert(text::strs_of(os@) =~= views_of(options@));
    }
    let spec = SshSpec {
        address,
        user,
        port,
        key_path: key_path_s,
        options: os,
        bastion: bastion_s,
        remote_command,
    };
    proof {
        let sp = spec_parse(input@)->0;
        assert(stv == rest.st);
        assert(sp.port == rest.st.port);
        assert(spec@.port == sp.port);
        assert(spec@.key_path == sp.key_path);
        assert(spec@.bastion == sp.bastion);
        assert(spec@.options == sp.options);
        assert(spec@.remote_command == sp.remote_command);
        if k == -1 {
            assert(spec@.address == found->target);
            assert(spec@.user is None);
        } else {
            assert(spec@.address == found->target.skip(k + 1));
            assert(spec@.user == Some(found->target.take(k)));
        }
        assert(spec@ =~= sp);
    }
    Ok(spec)
}

} // verus!