//! User-defined commands: `name: template` specs, placeholder substitution
//! and splitting into a program and its arguments.

use vstd::prelude::*;
use vstd::string::{StrSliceExecFns, StringExecFns};
use crate::classify::{spec_is_unicode_whitespace, is_unicode_whitespace};
use crate::selection::{selection_range, spec_range};
use crate::document::string_views;

verus! {

/// `s` without its leading whitespace.
pub open spec fn trim_start(s: Seq<char>) -> Seq<char>
    decreases s.len(),
{
    if s.len() > 0 && spec_is_unicode_whitespace(s[0]) {
        trim_start(s.drop_first())
    } else {
        s
    }
}

/// `s` without its trailing whitespace.
pub open spec fn trim_end(s: Seq<char>) -> Seq<char>
    decreases s.len(),
{
    if s.len() > 0 && spec_is_unicode_whitespace(s.last()) {
        trim_end(s.drop_last())
    } else {
        s
    }
}

/// `s` without leading and trailing whitespace.
pub open spec fn trim(s: Seq<char>) -> Seq<char> {
    trim_end(trim_start(s))
}

proof fn lemma_trim_start_empty(s: Seq<char>)
    ensures
        trim_start(s).len() == 0 <==> forall|i: int|
            0 <= i < s.len() ==> spec_is_unicode_whitespace(#[trigger] s[i]),
        trim_start(s).len() > 0 ==> !spec_is_unicode_whitespace(trim_start(s)[0]),
    decreases s.len(),
{
    if s.len() > 0 && spec_is_unicode_whitespace(s[0]) {
        lemma_trim_start_empty(s.drop_first());
        if trim_start(s).len() == 0 {
            assert forall|i: int| 0 <= i < s.len() implies spec_is_unicode_whitespace(
                #[trigger] s[i],
            ) by {
                if i > 0 {
                    assert(s[i] == s.drop_first()[i - 1]);
                }
            }
        } else {
            let t = s.drop_first();
            let k = choose|k: int| 0 <= k < t.len() && !spec_is_unicode_whitespace(t[k]);
            assert(!spec_is_unicode_whitespace(s[k + 1]));
        }
    } else if s.len() > 0 {
        assert(!spec_is_unicode_whitespace(s[0]));
    }
}

proof fn lemma_trim_end_keeps_first(t: Seq<char>)
    requires
        t.len() > 0,
        !spec_is_unicode_whitespace(t[0]),
    ensures
        trim_end(t).len() > 0,
    decreases t.len(),
{
    if spec_is_unicode_whitespace(t.last()) {
        if t.len() > 1 {
            assert(t.drop_last()[0] == t[0]);
            lemma_trim_end_keeps_first(t.drop_last());
        }
    }
}

/// A text trims to nothing exactly when all its characters are whitespace.
pub proof fn lemma_trim_empty(s: Seq<char>)
    ensures
        trim(s).len() == 0 <==> forall|i: int|
            0 <= i < s.len() ==> spec_is_unicode_whitespace(#[trigger] s[i]),
{
    lemma_trim_start_empty(s);
    if trim_start(s).len() > 0 {
        lemma_trim_end_keeps_first(trim_start(s));
    }
}

/// Relies on `String::push`: the character is added at the end.
#[verifier::external_body]
pub(crate) fn push_char(s: &mut String, c: char)
    ensures
        final(s)@ == old(s)@.push(c),
{
    s.push(c);
}

/// Relies on `str::trim`: it removes the leading and trailing characters that
/// have the White_Space property.
#[verifier::external_body]
pub(crate) fn trim_str(s: &str) -> (r: &str)
    ensures
        r@ == trim(s@),
{
    s.trim()
}

/// Every occurrence of `pat` in `s`, left to right and without overlap,
/// replaced by `rep`.
pub open spec fn replace_all(s: Seq<char>, pat: Seq<char>, rep: Seq<char>) -> Seq<char>
    decreases s.len(),
{
    if pat.len() == 0 || s.len() < pat.len() {
        s
    } else if s.take(pat.len() as int) == pat {
        rep + replace_all(s.skip(pat.len() as int), pat, rep)
    } else {
        seq![s[0]] + replace_all(s.drop_first(), pat, rep)
    }
}

pub open spec fn digit_char(d: nat) -> char {
    if d == 0 {
        '0'
    } else if d == 1 {
        '1'
    } else if d == 2 {
        '2'
    } else if d == 3 {
        '3'
    } else if d == 4 {
        '4'
    } else if d == 5 {
        '5'
    } else if d == 6 {
        '6'
    } else if d == 7 {
        '7'
    } else if d == 8 {
        '8'
    } else {
        '9'
    }
}

/// The decimal digits of `n`, without leading zeros.
pub open spec fn decimal(n: nat) -> Seq<char>
    decreases n,
{
    if n < 10 {
        seq![digit_char(n)]
    } else {
        decimal(n / 10).push(digit_char(n % 10))
    }
}

/// The tokens of `s[i..]`, where `cur` is the token that runs up to `i`.
pub open spec fn tokens_from(s: Seq<char>, i: int, cur: Seq<char>) -> Seq<Seq<char>>
    decreases s.len() - i,
{
    if i >= s.len() || i < 0 {
        if cur.len() > 0 {
            seq![cur]
        } else {
            Seq::empty()
        }
    } else if spec_is_unicode_whitespace(s[i]) {
        (if cur.len() > 0 {
            seq![cur]
        } else {
            Seq::empty()
        }) + tokens_from(s, i + 1, Seq::empty())
    } else {
        tokens_from(s, i + 1, cur.push(s[i]))
    }
}

/// The maximal runs of non-whitespace characters of `s`, in order.
pub open spec fn tokens(s: Seq<char>) -> Seq<Seq<char>> {
    tokens_from(s, 0, Seq::empty())
}

/// A user command: its name and the template it runs.
pub struct CommandSpec {
    pub name: String,
    pub template: String,
}

/// Index of the first `':'` in `s`, if any.
pub open spec fn first_colon(s: Seq<char>) -> Option<int> {
    if exists|i: int| 0 <= i < s.len() && s[i] == ':' {
        Some(choose|i: int| 0 <= i < s.len() && s[i] == ':' && forall|j: int| 0 <= j < i ==> s[j] != ':')
    } else {
        None
    }
}

/// What parsing `name: template` gives: the two trimmed sides of the first
/// colon, or `None` when there is no colon or a side is empty once trimmed.
pub open spec fn parse_spec(s: Seq<char>) -> Option<(Seq<char>, Seq<char>)> {
    match first_colon(s) {
        None => None,
        Some(i) => {
            let name = trim(s.take(i));
            let template = trim(s.skip(i + 1));
            if name.len() == 0 || template.len() == 0 {
                None
            } else {
                Some((name, template))
            }
        },
    }
}

/// `r` is what parsing `s` gives: the command, or the error text that says
/// whether the colon is missing or a side is empty.
pub open spec fn parsed(s: Seq<char>, r: Result<CommandSpec, String>) -> bool {
    match parse_spec(s) {
        Some((name, template)) => r matches Ok(c) && c.name@ == name && c.template@ == template,
        None => r matches Err(e) && e@ == if first_colon(s) is None {
            "expected <name>: <template>"@
        } else {
            "name or template empty"@
        },
    }
}

impl CommandSpec {
    /// Parses `name: template`, splitting at the first colon and trimming
    /// both sides.
    pub fn parse(s: &str) -> (r: Result<CommandSpec, String>)
        ensures
            parsed(s@, r),
    {
        let n = s.unicode_len();
        let mut i: usize = 0;
        while i < n && s.get_char(i) != ':'
            invariant
                n == s@.len(),
                i <= n,
                forall|j: int| 0 <= j < i ==> s@[j] != ':',
            decreases n - i,
        {
            i = i + 1;
        }
        if i == n {
            return Err(String::from_str("expected <name>: <template>"));
        }
        proof {
            assert(s@[i as int] == ':');
            let k = choose|k: int| 0 <= k < s@.len() && s@[k] == ':' && forall|j: int|
                0 <= j < k ==> s@[j] != ':';
            assert(k == i) by {
                if k < i {
                } else if k > i {
                    assert(s@[i as int] != ':');
                }
            }
        }
        let left = s.substring_char(0, i);
        let right = s.substring_char(i + 1, n);
        proof {
            assert(left@ =~= s@.take(i as int));
            assert(right@ =~= s@.skip(i + 1));
        }
        let name = trim_str(left);
        let template = trim_str(right);
        if name.unicode_len() == 0 || template.unicode_len() == 0 {
            return Err(String::from_str("name or template empty"));
        }
        Ok(CommandSpec { name: name.to_owned(), template: template.to_owned() })
    }
}

impl std::str::FromStr for CommandSpec {
    type Err = String;

    /// Parses `name: template`, as `CommandSpec::parse` does.
    fn from_str(s: &str) -> (r: Result<CommandSpec, String>)
        ensures
            parsed(s@, r),
    {
        CommandSpec::parse(s)
    }
}

/// Whether `pat` occurs in `s` at character `i`.
fn occurs_at(s: &str, i: usize, pat: &str) -> (r: bool)
    requires
        i + pat@.len() <= s@.len(),
    ensures
        r == (s@.skip(i as int).take(pat@.len() as int) == pat@),
{
    let m = pat.unicode_len();
    let n = s.unicode_len();
    let mut j: usize = 0;
    while j < m
        invariant
            m == pat@.len(),
            n == s@.len(),
            i + m <= s@.len(),
            j <= m,
            forall|k: int| 0 <= k < j ==> s@[i + k] == pat@[k],
        decreases m - j,
    {
        if s.get_char(i + j) != pat.get_char(j) {
            proof {
                assert(s@.skip(i as int).take(m as int)[j as int] != pat@[j as int]);
            }
            return false;
        }
        j = j + 1;
    }
    proof {
        assert(s@.skip(i as int).take(m as int) =~= pat@);
    }
    true
}

/// Replaces every occurrence of `pat` in `s` by `rep`, left to right and
/// without overlap.
pub fn replace(s: &str, pat: &str, rep: &str) -> (r: String)
    requires
        pat@.len() > 0,
    ensures
        r@ == replace_all(s@, pat@, rep@),
{
    let n = s.unicode_len();
    let m = pat.unicode_len();
    let mut out = String::new();
    let mut i: usize = 0;
    proof {
        assert(s@.skip(0) =~= s@);
    }
    while i < n
        invariant
            n == s@.len(),
            m == pat@.len(),
            m > 0,
            i <= n,
            out@ + replace_all(s@.skip(i as int), pat@, rep@) == replace_all(s@, pat@, rep@),
        decreases n - i,
    {
        let ghost t = s@.skip(i as int);
        let ghost o0 = out@;
        if n - i < m {
            let rest = s.substring_char(i, n);
            out.append(rest);
            proof {
                assert(rest@ =~= t);
                assert(s@.skip(n as int) =~= Seq::<char>::empty());
                assert(out@ + replace_all(s@.skip(n as int), pat@, rep@) =~= o0 + t);
            }
            i = n;
        } else if occurs_at(s, i, pat) {
            out.append(rep);
            proof {
                assert(t.skip(m as int) =~= s@.skip(i + m));
                assert(o0 + replace_all(t, pat@, rep@) =~= out@ + replace_all(
                    s@.skip(i + m),
                    pat@,
                    rep@,
                ));
            }
            i = i + m;
        } else {
            let one = s.substring_char(i, i + 1);
            out.append(one);
            proof {
                assert(one@ =~= seq![t[0]]);
                assert(t.drop_first() =~= s@.skip(i + 1));
                assert(o0 + replace_all(t, pat@, rep@) =~= out@ + replace_all(
                    s@.skip(i + 1),
                    pat@,
                    rep@,
                ));
            }
            i = i + 1;
        }
    }
    proof {
        assert(s@.skip(n as int) =~= Seq::<char>::empty());
        assert(out@ + replace_all(s@.skip(n as int), pat@, rep@) =~= out@);
    }
    out
}

fn digit_str(d: usize) -> (r: &'static str)
    requires
        d < 10,
    ensures
        r@ == seq![digit_char(d as nat)],
{
    proof {
        reveal_strlit("0");
        reveal_strlit("1");
        reveal_strlit("2");
        reveal_strlit("3");
        reveal_strlit("4");
        reveal_strlit("5");
        reveal_strlit("6");
        reveal_strlit("7");
        reveal_strlit("8");
        reveal_strlit("9");
    }
    match d {
        0 => "0",
        1 => "1",
        2 => "2",
        3 => "3",
        4 => "4",
        5 => "5",
        6 => "6",
        7 => "7",
        8 => "8",
        _ => "9",
    }
}

/// The decimal digits of `n`.
pub fn to_decimal(n: usize) -> (r: String)
    ensures
        r@ == decimal(n as nat),
    decreases n,
{
    if n < 10 {
        String::from_str(digit_str(n))
    } else {
        let mut s = to_decimal(n / 10);
        s.append(digit_str(n % 10));
        s
    }
}

/// The decimal digits of `n + 1`: a zero-based index written one-based.
pub fn one_based(n: usize) -> (r: String)
    ensures
        r@ == decimal((n + 1) as nat),
    decreases n,
{
    if n < 9 {
        String::from_str(digit_str(n + 1))
    } else if n % 10 == 9 {
        let mut s = one_based(n / 10);
        s.append(digit_str(0));
        proof {
            assert((n + 1) / 10 == n / 10 + 1);
            assert((n + 1) % 10 == 0);
        }
        s
    } else {
        let mut s = to_decimal(n / 10);
        s.append(digit_str(n % 10 + 1));
        proof {
            assert((n + 1) / 10 == n / 10);
            assert((n + 1) % 10 == n % 10 + 1);
        }
        s
    }
}

/// Splits `s` into its maximal runs of non-whitespace characters.
pub fn split_tokens(s: &str) -> (r: Vec<String>)
    ensures
        string_views(r@) == tokens(s@),
{
    let n = s.unicode_len();
    let mut out: Vec<String> = Vec::new();
    let mut start: usize = 0;
    let mut i: usize = 0;
    proof {
        assert(s@.subrange(0, 0) =~= Seq::<char>::empty());
        assert(string_views(out@) + tokens(s@) =~= tokens(s@));
    }
    while i < n
        invariant
            n == s@.len(),
            start <= i <= n,
            string_views(out@) + tokens_from(s@, i as int, s@.subrange(start as int, i as int))
                == tokens(s@),
        decreases n - i,
    {
        let c = s.get_char(i);
        let ghost o0 = string_views(out@);
        let ghost cur = s@.subrange(start as int, i as int);
        if is_unicode_whitespace(c) {
            if start < i {
                let piece = s.substring_char(start, i);
                out.push(piece.to_owned());
                proof {
                    assert(string_views(out@) =~= o0.push(cur));
                }
            }
            proof {
                assert(s@.subrange(i + 1, i + 1) =~= Seq::<char>::empty());
                if start < i {
                    assert(o0 + tokens_from(s@, i as int, cur) =~= string_views(out@)
                        + tokens_from(s@, i + 1, Seq::empty()));
                } else {
                    assert(cur =~= Seq::<char>::empty());
                    assert(o0 + tokens_from(s@, i as int, cur) =~= string_views(out@)
                        + tokens_from(s@, i + 1, Seq::empty()));
                }
            }
            start = i + 1;
        } else {
            proof {
                assert(cur.push(c) =~= s@.subrange(start as int, i + 1));
            }
        }
        i = i + 1;
    }
    if start < n {
        let ghost o0 = string_views(out@);
        let piece = s.substring_char(start, n);
        out.push(piece.to_owned());
        proof {
            assert(string_views(out@) =~= o0.push(piece@));
            assert(string_views(out@) =~= o0 + seq![piece@]);
        }
    } else {
        proof {
            assert(s@.subrange(start as int, n as int) =~= Seq::<char>::empty());
            assert(string_views(out@) + Seq::<Seq<char>>::empty() =~= string_views(out@));
        }
    }
    out
}

/// The template with every placeholder filled in: `{line}` and `{col}` give
/// the cursor, `{args}` the text after the command name, and `{start_line}`,
/// `{start_col}`, `{end_line}`, `{end_col}` the normalized selection (the
/// cursor twice without a selection). Rows and columns are written one-based.
pub open spec fn expanded(
    template: Seq<char>,
    args: Seq<char>,
    cursor: (usize, usize),
    anchor: Option<(usize, usize)>,
) -> Seq<char> {
    let ((sy, sx), (ey, ex)) = spec_range(anchor, cursor);
    let t1 = replace_all(template, "{line}"@, decimal((cursor.0 + 1) as nat));
    let t2 = replace_all(t1, "{col}"@, decimal((cursor.1 + 1) as nat));
    let t3 = replace_all(t2, "{args}"@, args);
    let t4 = replace_all(t3, "{start_line}"@, decimal((sy + 1) as nat));
    let t5 = replace_all(t4, "{start_col}"@, decimal((sx + 1) as nat));
    let t6 = replace_all(t5, "{end_line}"@, decimal((ey + 1) as nat));
    replace_all(t6, "{end_col}"@, decimal((ex + 1) as nat))
}

/// Fills in the placeholders of a command template.
pub fn expand(
    template: &str,
    args: &str,
    cursor: (usize, usize),
    anchor: Option<(usize, usize)>,
) -> (r: String)
    ensures
        r@ == expanded(template@, args@, cursor, anchor),
{
    proof {
        reveal_strlit("{line}");
        reveal_strlit("{col}");
        reveal_strlit("{args}");
        reveal_strlit("{start_line}");
        reveal_strlit("{start_col}");
        reveal_strlit("{end_line}");
        reveal_strlit("{end_col}");
    }
    let t = replace(template, "{line}", one_based(cursor.0).as_str());
    let t = replace(t.as_str(), "{col}", one_based(cursor.1).as_str());
    let t = replace(t.as_str(), "{args}", args);
    let ((sy, sx), (ey, ex)) = selection_range(anchor, cursor);
    let t = replace(t.as_str(), "{start_line}", one_based(sy).as_str());
    let t = replace(t.as_str(), "{start_col}", one_based(sx).as_str());
    let t = replace(t.as_str(), "{end_line}", one_based(ey).as_str());
    replace(t.as_str(), "{end_col}", one_based(ex).as_str())
}

/// A program to start and its arguments.
pub struct Invocation {
    pub program: String,
    pub args: Vec<String>,
}

/// Why a command line resolves to nothing.
#[derive(Clone, Copy, Debug, PartialEq, Eq, Structural)]
pub enum ResolveError {
    /// No command of that name is defined.
    UnknownCommand,
    /// The filled-in template holds no token.
    Empty,
}

/// Index of the first whitespace character of `s`, if any.
pub open spec fn first_space(s: Seq<char>) -> Option<int> {
    if exists|i: int| 0 <= i < s.len() && spec_is_unicode_whitespace(s[i]) {
        Some(
            choose|i: int|
                0 <= i < s.len() && spec_is_unicode_whitespace(s[i]) && forall|j: int|
                    0 <= j < i ==> !spec_is_unicode_whitespace(s[j]),
        )
    } else {
        None
    }
}

/// The command name: the text before the first whitespace character.
pub open spec fn command_name(line: Seq<char>) -> Seq<char> {
    match first_space(line) {
        Some(i) => line.take(i),
        None => line,
    }
}

/// The arguments: the text after the first whitespace character.
pub open spec fn command_args(line: Seq<char>) -> Seq<char> {
    match first_space(line) {
        Some(i) => line.skip(i + 1),
        None => Seq::empty(),
    }
}

/// Index of the first command called `name`.
pub open spec fn find_command(commands: Seq<CommandSpec>, name: Seq<char>) -> Option<int> {
    if exists|i: int| 0 <= i < commands.len() && commands[i].name@ == name {
        Some(
            choose|i: int|
                0 <= i < commands.len() && commands[i].name@ == name && forall|j: int|
                    0 <= j < i ==> commands[j].name@ != name,
        )
    } else {
        None
    }
}

/// The tokens that running `line` would give, or why it gives nothing.
pub open spec fn resolved(
    commands: Seq<CommandSpec>,
    line: Seq<char>,
    cursor: (usize, usize),
    anchor: Option<(usize, usize)>,
) -> Result<Seq<Seq<char>>, ResolveError> {
    match find_command(commands, command_name(line)) {
        None => Err(ResolveError::UnknownCommand),
        Some(i) => {
            let toks = tokens(expanded(commands[i].template@, command_args(line), cursor, anchor));
            if toks.len() == 0 {
                Err(ResolveError::Empty)
            } else {
                Ok(toks)
            }
        },
    }
}

/// Turns a command line `name args...` into the program and arguments of
/// the first command called `name`, with its template filled in and split
/// on whitespace.
pub fn resolve(
    commands: &Vec<CommandSpec>,
    line: &str,
    cursor: (usize, usize),
    anchor: Option<(usize, usize)>,
) -> (r: Result<Invocation, ResolveError>)
    ensures
        match resolved(commands@, line@, cursor, anchor) {
            Ok(toks) => r matches Ok(inv) && inv.program@ == toks[0] && string_views(inv.args@)
                == toks.drop_first(),
            Err(e) => r == Err::<Invocation, ResolveError>(e),
        },
{
    let n = line.unicode_len();
    let mut k: usize = 0;
    while k < n && !is_unicode_whitespace(line.get_char(k))
        invariant
            n == line@.len(),
            k <= n,
            forall|j: int| 0 <= j < k ==> !spec_is_unicode_whitespace(line@[j]),
        decreases n - k,
    {
        k = k + 1;
    }
    let name = line.substring_char(0, k);
    let args = if k < n {
        line.substring_char(k + 1, n)
    } else {
        line.substring_char(n, n)
    };
    proof {
        if k < n {
            let c = choose|i: int|
                0 <= i < line@.len() && spec_is_unicode_whitespace(line@[i]) && forall|j: int|
                    0 <= j < i ==> !spec_is_unicode_whitespace(line@[j]);
            assert(c == k) by {
                if c > k {
                    assert(!spec_is_unicode_whitespace(line@[k as int]));
                }
            }
            assert(name@ =~= command_name(line@));
            assert(args@ =~= command_args(line@));
        } else {
            assert(name@ =~= command_name(line@));
            assert(args@ =~= command_args(line@));
        }
    }
    let mut i: usize = 0;
    while i < commands.len() && !str_eq(commands[i].name.as_str(), name)
        invariant
            i <= commands@.len(),
            forall|j: int| 0 <= j < i ==> commands@[j].name@ != name@,
        decreases commands@.len() - i,
    {
        i = i + 1;
    }
    if i == commands.len() {
        return Err(ResolveError::UnknownCommand);
    }
    proof {
        let c = choose|c: int|
            0 <= c < commands@.len() && commands@[c].name@ == name@ && forall|j: int|
                0 <= j < c ==> commands@[j].name@ != name@;
        assert(c == i) by {
            if c > i {
                assert(commands@[i as int].name@ != name@);
            }
        }
    }
    let text = expand(commands[i].template.as_str(), args, cursor, anchor);
    let mut toks = split_tokens(text.as_str());
    if toks.len() == 0 {
        return Err(ResolveError::Empty);
    }
    let program = toks.remove(0);
    proof {
        assert(string_views(toks@) =~= tokens(text@).drop_first());
    }
    Ok(Invocation { program, args: toks })
}

/// Whether two strings hold the same characters.
pub(crate) fn str_eq(a: &str, b: &str) -> (r: bool)
    ensures
        r == (a@ == b@),
{
    let n = a.unicode_len();
    if n != b.unicode_len() {
        return false;
    }
    let mut j: usize = 0;
    while j < n
        invariant
            n == a@.len(),
            n == b@.len(),
            j <= n,
            forall|k: int| 0 <= k < j ==> a@[k] == b@[k],
        decreases n - j,
    {
        if a.get_char(j) != b.get_char(j) {
            return false;
        }
        j = j + 1;
    }
    proof {
        assert(a@ =~= b@);
    }
    true
}

} // verus!