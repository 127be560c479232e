//! The connection string: whitespace-separated `key=value` settings.
//!
//! Tokens are the maximal runs of characters that are not Unicode white
//! space. A token is split at its first `=`; tokens without one are
//! ignored, and so are keys other than `host`, `port`, `dbname`, `user` and
//! `password`. A later setting of a key replaces an earlier one; a `port`
//! that is not a decimal number from 0 to 65535 (with an optional leading
//! `+`) clears the port.

use vstd::prelude::*;

verus! {

/// Whether `c` has the Unicode `White_Space` property.
pub open spec fn is_ws(c: char) -> bool {
    let n = c as u32;
    ||| 0x09 <= n <= 0x0D
    ||| n == 0x20
    ||| n == 0x85
    ||| n == 0xA0
    ||| n == 0x1680
    ||| 0x2000 <= n <= 0x200A
    ||| n == 0x2028
    ||| n == 0x2029
    ||| n == 0x202F
    ||| n == 0x205F
    ||| n == 0x3000
}

/// Reading `s` from the left: the tokens completed so far and the token
/// being read.
pub open spec fn scan(s: Seq<char>) -> (Seq<Seq<char>>, Seq<char>)
    decreases s.len(),
{
    if s.len() == 0 {
        (Seq::empty(), Seq::empty())
    } else {
        let (done, cur) = scan(s.drop_last());
        let c = s.last();
        if is_ws(c) {
            if cur.len() > 0 {
                (done.push(cur), Seq::empty())
            } else {
                (done, cur)
            }
        } else {
            (done, cur.push(c))
        }
    }
}

/// The tokens of `s`: its maximal runs of non-white-space characters, in
/// order.
pub open spec fn split_ws(s: Seq<char>) -> Seq<Seq<char>> {
    let (done, cur) = scan(s);
    if cur.len() > 0 {
        done.push(cur)
    } else {
        done
    }
}

/// Whether `c` is white space (Unicode `White_Space`).
pub fn is_whitespace(c: char) -> (b: bool)
    ensures
        b == is_ws(c),
{
    let n = c as u32;
    (0x09 <= n && n <= 0x0D) || n == 0x20 || n == 0x85 || n == 0xA0 || n == 0x1680 || (0x2000 <= n
        && n <= 0x200A) || n == 0x2028 || n == 0x2029 || n == 0x202F || n == 0x205F || n == 0x3000
}

/// The characters of `s`.
pub fn str_chars(s: &str) -> (v: Vec<char>)
    ensures
        v@ == s@,
{
    let mut v: Vec<char> = Vec::new();
    for c in it: s.chars()
        invariant
            v@ == it.seq().take(it.index() as int),
            it.seq() == s@,
    {
        v.push(c);
        assert(it.seq().take(it.index() + 1) =~= v@);
    }
    assert(v@ =~= s@);
    v
}

/// The tokens of `s`, as `split_ws` describes them.
pub fn split_whitespace(s: &Vec<char>) -> (r: Vec<Vec<char>>)
    ensures
        r@.map_values(|t: Vec<char>| t@) == split_ws(s@),
{
    let mut done: Vec<Vec<char>> = Vec::new();
    let mut cur: Vec<char> = Vec::new();
    let mut i: usize = 0;
    while i < s.len()
        invariant
            0 <= i <= s@.len(),
            (done@.map_values(|t: Vec<char>| t@), cur@) == scan(s@.take(i as int)),
        decreases s@.len() - i,
    {
        let ghost before = done@;
        let c = s[i];
        assert(s@.take(i + 1).drop_last() =~= s@.take(i as int));
        if is_whitespace(c) {
            if cur.len() > 0 {
                let finished = cur;
                cur = Vec::new();
                done.push(finished);
                assert(done@.map_values(|t: Vec<char>| t@) =~= before.map_values(|t: Vec<char>| t@).push(
                    finished@,
                ));
            }
        } else {
            cur.push(c);
        }
        assert(cur@ == scan(s@.take(i + 1)).1);
        i = i + 1;
    }
    assert(s@.take(s@.len() as int) =~= s@);
    if cur.len() > 0 {
        let ghost before = done@;
        let finished = cur;
        done.push(finished);
        assert(done@.map_values(|t: Vec<char>| t@) =~= before.map_values(|t: Vec<char>| t@).push(
            finished@,
        ));
    }
    done
}

/// The settings read from a connection string, with text of type `T`.
#[derive(Debug, PartialEq, Eq)]
pub struct Dsn<T> {
    pub host: Option<T>,
    pub port: Option<u16>,
    pub dbname: Option<T>,
    pub user: Option<T>,
    pub password: Option<T>,
}

/// The settings as they are handed on.
pub type DsnSettings = Dsn<String>;

/// The view of the settings.
pub type DsnView = Dsn<Seq<char>>;

/// The view of an optional text.
pub open spec fn opt_text(o: Option<String>) -> Option<Seq<char>> {
    match o {
        Some(s) => Some(s@),
        None => None,
    }
}

impl View for Dsn<String> {
    type V = Dsn<Seq<char>>;

    open spec fn view(&self) -> Dsn<Seq<char>> {
        Dsn {
            host: opt_text(self.host),
            port: self.port,
            dbname: opt_text(self.dbname),
            user: opt_text(self.user),
            password: opt_text(self.password),
        }
    }
}

/// No settings.
pub open spec fn no_settings() -> DsnView {
    Dsn { host: None, port: None, dbname: None, user: None, password: None }
}

/// The position of the first `=` in `t`.
pub open spec fn eq_index(t: Seq<char>) -> Option<int>
    decreases t.len(),
{
    if t.len() == 0 {
        None
    } else if t[0] == '=' {
        Some(0)
    } else {
        match eq_index(t.drop_first()) {
            Some(i) => Some(i + 1),
            None => None,
        }
    }
}

/// Whether `c` is one of the digits `0` to `9`.
pub open spec fn is_digit(c: char) -> bool {
    48 <= (c as u32) <= 57
}

/// The value of the decimal digits `d`.
pub open spec fn decimal(d: Seq<char>) -> nat
    decreases d.len(),
{
    if d.len() == 0 {
        0
    } else {
        decimal(d.drop_last()) * 10 + ((d.last() as u32) - 48) as nat
    }
}

/// The digits `d` read as a `u16`: one or more decimal digits whose value
/// is at most 65535.
pub open spec fn digits_u16(d: Seq<char>) -> Option<u16> {
    if d.len() > 0 && (forall|i: int| 0 <= i < d.len() ==> is_digit(#[trigger] d[i])) && decimal(d)
        <= 65535 {
        Some(decimal(d) as u16)
    } else {
        None
    }
}

/// `s` without a leading `+`.
pub open spec fn unsigned_part(s: Seq<char>) -> Seq<char> {
    if s.len() > 0 && s[0] == '+' {
        s.drop_first()
    } else {
        s
    }
}

/// `s` read as a `u16`: an optional `+`, then one or more decimal digits
/// whose value is at most 65535.
pub open spec fn parse_u16(s: Seq<char>) -> Option<u16> {
    digits_u16(unsigned_part(s))
}

/// The settings after reading token `t`.
pub open spec fn apply_token(d: DsnView, t: Seq<char>) -> DsnView {
    match eq_index(t) {
        None => d,
        Some(i) => {
            let key = t.take(i);
            let value = t.skip(i + 1);
            if key == "host"@ {
                Dsn { host: Some(value), ..d }
            } else if key == "port"@ {
                Dsn { port: parse_u16(value), ..d }
            } else if key == "dbname"@ {
                Dsn { dbname: Some(value), ..d }
            } else if key == "user"@ {
                Dsn { user: Some(value), ..d }
            } else if key == "password"@ {
                Dsn { password: Some(value), ..d }
            } else {
                d
            }
        },
    }
}

/// The settings of the connection string `s`: its tokens read in order.
pub open spec fn dsn_settings(s: Seq<char>) -> DsnView {
    split_ws(s).fold_left(no_settings(), |d: DsnView, t: Seq<char>| apply_token(d, t))
}

proof fn lemma_eq_index(t: Seq<char>, i: int)
    requires
        0 <= i <= t.len(),
        forall|j: int| 0 <= j < i ==> t[j] != '=',
        i < t.len() ==> t[i] == '=',
    ensures
        eq_index(t) == (if i < t.len() { Some(i) } else { None::<int> }),
    decreases i,
{
    if t.len() > 0 && i > 0 {
        assert forall|j: int| 0 <= j < i - 1 implies t.drop_first()[j] != '=' by {
            assert(t[j + 1] != '=');
        }
        lemma_eq_index(t.drop_first(), i - 1);
    }
}

proof fn lemma_capped_step(a: nat, x: nat)
    ensures
        (if a < 65536 { a } else { 65536 }) * 10 + x >= 65536 <==> a * 10 + x >= 65536,
        a < 65536 ==> (if a < 65536 { a } else { 65536 }) * 10 + x == a * 10 + x,
{
}

/// Calls `String::push`, which appends `c` to the end of `s`; claimed:
/// the text afterwards is the old text followed by `c`.
#[verifier::external_body]
fn push_char(s: &mut String, c: char)
    ensures
        final(s)@ == old(s)@.push(c),
{
    s.push(c);
}

/// The characters of `t` from `from` up to `to`, as a string.
fn text_between(t: &Vec<char>, from: usize, to: usize) -> (s: String)
    requires
        from <= to <= t@.len(),
    ensures
        s@ == t@.subrange(from as int, to as int),
{
    let mut s = String::new();
    let mut i: usize = from;
    while i < to
        invariant
            from <= i <= to <= t@.len(),
            s@ == t@.subrange(from as int, i as int),
        decreases to - i,
    {
        push_char(&mut s, t[i]);
        assert(t@.subrange(from as int, i + 1) =~= t@.subrange(from as int, i as int).push(t@[i as int]));
        i = i + 1;
    }
    s
}

/// The characters of `t` from `start` on, read as a `u16`.
fn parse_port(t: &Vec<char>, start: usize) -> (r: Option<u16>)
    requires
        start <= t@.len(),
    ensures
        r == parse_u16(t@.skip(start as int)),
{
    let ghost s = t@.skip(start as int);
    let mut p = start;
    if p < t.len() && t[p] == '+' {
        p = p + 1;
    }
    let ghost d = t@.skip(p as int);
    assert(d =~= unsigned_part(s));
    if p == t.len() {
        return None;
    }
    let mut value: u32 = 0;
    let mut i: usize = p;
    while i < t.len()
        invariant
            p <= i <= t@.len(),
            d == t@.skip(p as int),
            s == t@.skip(start as int),
            d == unsigned_part(s),
            forall|j: int| 0 <= j < i - p ==> is_digit(#[trigger] d[j]),
            value == (if decimal(d.take(i - p)) < 65536 { decimal(d.take(i - p)) } else { 65536 }),
        decreases t@.len() - i,
    {
        let c = t[i];
        let n = c as u32;
        if n < 48 || n > 57 {
            assert(!is_digit(d[i - p]));
            return None;
        }
        proof {
            let k = i - p;
            assert(d.take(k + 1).drop_last() =~= d.take(k));
            assert(d.take(k + 1).last() == c);
            lemma_capped_step(decimal(d.take(k)), (n - 48) as nat);
        }
        let next = value * 10 + (n - 48);
        value = if next >= 65536 { 65536 } else { next };
        i = i + 1;
    }
    assert(d.take(i - p) =~= d);
    if value > 65535 {
        None
    } else {
        Some(value as u16)
    }
}

/// Reads the connection string `dsn`.
pub fn parse_dsn(dsn: &str) -> (d: DsnSettings)
    ensures
        d@ == dsn_settings(dsn@),
{
    let chars = str_chars(dsn);
    let tokens = split_whitespace(&chars);
    let ghost toks = tokens@.map_values(|t: Vec<char>| t@);
    let ghost f = |d: DsnView, t: Seq<char>| apply_token(d, t);
    let mut d = Dsn { host: None, port: None, dbname: None, user: None, password: None };
    let host_key = "host".to_owned();
    let port_key = "port".to_owned();
    let dbname_key = "dbname".to_owned();
    let user_key = "user".to_owned();
    let password_key = "password".to_owned();
    let mut k: usize = 0;
    while k < tokens.len()
        invariant
            0 <= k <= tokens@.len(),
            toks == tokens@.map_values(|t: Vec<char>| t@),
            toks == split_ws(dsn@),
            f == (|d: DsnView, t: Seq<char>| apply_token(d, t)),
            d@ == toks.take(k as int).fold_left(no_settings(), f),
            host_key@ == "host"@,
            port_key@ == "port"@,
            dbname_key@ == "dbname"@,
            user_key@ == "user"@,
            password_key@ == "password"@,
        decreases tokens@.len() - k,
    {
        let t = &tokens[k];
        assert(toks.take(k + 1).drop_last() =~= toks.take(k as int));
        let ghost before = d@;
        let mut i: usize = 0;
        while i < t.len() && t[i] != '='
            invariant
                0 <= i <= t@.len(),
                forall|j: int| 0 <= j < i ==> t@[j] != '=',
            decreases t@.len() - i,
        {
            i = i + 1;
        }
        proof {
            lemma_eq_index(t@, i as int);
        }
        if i < t.len() {
            let key = text_between(t, 0, i);
            assert(t@.subrange(0, i as int) =~= t@.take(i as int));
            if key == host_key {
                d.host = Some(text_between(t, i + 1, t.len()));
            } else if key == port_key {
                d.port = parse_port(t, i + 1);
            } else if key == dbname_key {
                d.dbname = Some(text_between(t, i + 1, t.len()));
            } else if key == user_key {
                d.user = Some(text_between(t, i + 1, t.len()));
            } else if key == password_key {
                d.password = Some(text_between(t, i + 1, t.len()));
            }
            assert(t@.subrange(i + 1, t@.len() as int) =~= t@.skip(i + 1));
        }
        assert(d@ == apply_token(before, toks[k as int]));
        k = k + 1;
    }
    assert(toks.take(tokens@.len() as int) =~= toks);
    d
}

} // verus!
