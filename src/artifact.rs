use vstd::prelude::*;
use crate::text::{
    all_digits, chars_of, decimal, digit_value, lemma_decimal_injective, lemma_decimal_roundtrip,
    push_char, push_decimal,
};

verus! {

/// Whether a character is percent-escaped in a file name.
pub open spec fn needs_escape(c: char) -> bool {
    c == '%' || c == '/' || c == '\t' || c == '\n' || c == '\r'
}

/// How one character of a repository name is written in a file name: `%`, `/`,
/// tab and line breaks are percent-escaped, every other character stands for
/// itself.
pub open spec fn escape_char(c: char) -> Seq<char> {
    if c == '%' {
        seq!['%', '2', '5']
    } else if c == '/' {
        seq!['%', '2', 'F']
    } else if c == '\t' {
        seq!['%', '0', '9']
    } else if c == '\n' {
        seq!['%', '0', 'A']
    } else if c == '\r' {
        seq!['%', '0', 'D']
    } else {
        seq![c]
    }
}

/// The character that an escape `%<a><b>` stands for.
pub open spec fn unescape_pair(a: char, b: char) -> char {
    if a == '2' {
        if b == 'F' { '/' } else { '%' }
    } else if b == '9' {
        '\t'
    } else if b == 'A' {
        '\n'
    } else {
        '\r'
    }
}

/// A repository name escaped for use inside a file name.
pub open spec fn escape(s: Seq<char>) -> Seq<char>
    decreases s.len(),
{
    if s.len() == 0 {
        Seq::empty()
    } else {
        escape_char(s[0]) + escape(s.drop_first())
    }
}

/// Reverses `escape`.
pub open spec fn unescape(e: Seq<char>) -> Seq<char>
    decreases e.len(),
{
    if e.len() == 0 {
        Seq::empty()
    } else if e[0] == '%' && e.len() >= 3 {
        seq![unescape_pair(e[1], e[2])] + unescape(e.subrange(3, e.len() as int))
    } else {
        seq![e[0]] + unescape(e.drop_first())
    }
}

/// The file name under which the body of PR `number` of `repo` is kept:
/// `<number>-<escaped repo>.md`.
pub open spec fn artifact_name(repo: Seq<char>, number: nat) -> Seq<char> {
    decimal(number) + seq!['-'] + escape(repo) + seq!['.', 'm', 'd']
}

proof fn lemma_escape_push(s: Seq<char>, c: char)
    ensures
        escape(s.push(c)) == escape(s) + escape_char(c),
    decreases s.len(),
{
    if s.len() == 0 {
        assert(s.push(c).drop_first() =~= Seq::<char>::empty());
        assert(escape(s.push(c)) =~= escape_char(c) + escape(Seq::<char>::empty()));
    } else {
        assert(s.push(c).drop_first() =~= s.drop_first().push(c));
        lemma_escape_push(s.drop_first(), c);
        assert(escape(s.push(c)) =~= escape_char(s[0]) + escape(s.drop_first().push(c)));
        assert(escape(s.push(c)) =~= escape(s) + escape_char(c));
    }
}

/// Escaping loses nothing: unescaping gives the repository name back.
pub proof fn lemma_unescape_escape(s: Seq<char>)
    ensures
        unescape(escape(s)) == s,
    decreases s.len(),
{
    if s.len() > 0 {
        let e = escape(s);
        let rest = escape(s.drop_first());
        lemma_unescape_escape(s.drop_first());
        if needs_escape(s[0]) {
            assert(e.subrange(3, e.len() as int) =~= rest);
        } else {
            assert(e.drop_first() =~= rest);
        }
        assert(unescape(e) =~= s);
    }
}

/// Distinct pairs of repository and number never share a file name, so no two
/// records of one run overwrite each other's preview, whatever characters the
/// repository names hold.
pub proof fn lemma_artifact_names_distinct(r1: Seq<char>, n1: nat, r2: Seq<char>, n2: nat)
    requires
        r1 != r2 || n1 != n2,
    ensures
        artifact_name(r1, n1) != artifact_name(r2, n2),
{
    if artifact_name(r1, n1) == artifact_name(r2, n2) {
        let f = artifact_name(r1, n1);
        let d1 = decimal(n1);
        let d2 = decimal(n2);
        lemma_decimal_roundtrip(n1);
        lemma_decimal_roundtrip(n2);
        if d1.len() < d2.len() {
            assert(f[d1.len() as int] == '-');
            assert(f[d1.len() as int] == d2[d1.len() as int]);
            assert(0 <= digit_value(d2[d1.len() as int]) <= 9);
        } else if d2.len() < d1.len() {
            assert(f[d2.len() as int] == '-');
            assert(f[d2.len() as int] == d1[d2.len() as int]);
            assert(0 <= digit_value(d1[d2.len() as int]) <= 9);
        } else {
            assert(d1 =~= f.subrange(0, d1.len() as int));
            assert(d2 =~= f.subrange(0, d2.len() as int));
            lemma_decimal_injective(n1, n2);
            let e1 = escape(r1);
            let e2 = escape(r2);
            assert(e1 =~= f.subrange(d1.len() as int + 1, f.len() - 3));
            assert(e2 =~= f.subrange(d2.len() as int + 1, f.len() - 3));
            lemma_unescape_escape(r1);
            lemma_unescape_escape(r2);
        }
    }
}

/// The file name that keeps the body of PR `number` of `repo`.
pub fn artifact_file_name(repo: &str, number: u64) -> (r: String)
    ensures
        r@ == artifact_name(repo@, number as nat),
{
    let mut out = String::new();
    push_decimal(&mut out, number);
    push_char(&mut out, '-');
    let cs = chars_of(repo);
    let ghost head = out@;
    let n = cs.len();
    let mut i: usize = 0;
    while i < n
        invariant
            n == cs@.len(),
            cs@ == repo@,
            i <= n,
            out@ == head + escape(cs@.take(i as int)),
        decreases n - i,
    {
        let c = cs[i];
        proof {
            assert(cs@.take(i + 1) =~= cs@.take(i as int).push(c));
            lemma_escape_push(cs@.take(i as int), c);
        }
        if c == '%' {
            push_char(&mut out, '%');
            push_char(&mut out, '2');
            push_char(&mut out, '5');
        } else if c == '/' {
            push_char(&mut out, '%');
            push_char(&mut out, '2');
            push_char(&mut out, 'F');
        } else if c == '\t' {
            push_char(&mut out, '%');
            push_char(&mut out, '0');
            push_char(&mut out, '9');
        } else if c == '\n' {
            push_char(&mut out, '%');
            push_char(&mut out, '0');
            push_char(&mut out, 'A');
        } else if c == '\r' {
            push_char(&mut out, '%');
            push_char(&mut out, '0');
            push_char(&mut out, 'D');
        } else {
            push_char(&mut out, c);
        }
        i = i + 1;
        assert(out@ =~= head + escape(cs@.take(i as int)));
    }
    push_char(&mut out, '.');
    push_char(&mut out, 'm');
    push_char(&mut out, 'd');
    assert(cs@.take(n as int) =~= repo@);
    assert(out@ =~= artifact_name(repo@, number as nat));
    out
}

} // verus!
