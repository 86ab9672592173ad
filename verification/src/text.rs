use vstd::prelude::*;
use vstd::string::StrSliceExecFns;
use vstd::string::StringExecFns;

verus! {

/// The character views of a sequence of owned strings.
pub open spec fn views(vs: Seq<String>) -> Seq<Seq<char>> {
    Seq::new(vs.len(), |i: int| vs[i]@)
}

/// Taking views commutes with concatenation.
pub proof fn lemma_views_concat(a: Seq<String>, b: Seq<String>)
    ensures
        views(a + b) =~= views(a) + views(b),
{
    assert forall|i: int| 0 <= i < (a + b).len() implies views(a + b)[i] == (views(a) + views(
        b,
    ))[i] by {
        if i < a.len() {
            assert((a + b)[i] == a[i]);
        } else {
            assert((a + b)[i] == b[i - a.len()]);
        }
    }
}

/// Taking views commutes with pushing one element.
pub proof fn lemma_views_push(a: Seq<String>, x: String)
    ensures
        views(a.push(x)) =~= views(a).push(x@),
{
    assert forall|j: int| 0 <= j < a.len() + 1 implies views(a.push(x))[j] == views(a).push(
        x@,
    )[j] by {
        if j < a.len() {
            assert(a.push(x)[j] == a[j]);
        } else {
            assert(a.push(x)[j] == x);
        }
    }
}

/// What `char::is_alphanumeric` returns; it depends on the character alone.
pub uninterp spec fn is_alnum(c: char) -> bool;

/// Relies on char::is_alphanumeric: whether the character is a Unicode
/// letter or number, a function of the character alone.
#[verifier::external_body]
pub(crate) fn char_is_alnum(c: char) -> (r: bool)
    ensures
        r == is_alnum(c),
{
    c.is_alphanumeric()
}

/// What `char::is_whitespace` returns; it depends on the character alone.
pub uninterp spec fn is_ws(c: char) -> bool;

/// Relies on char::is_whitespace: whether the character has the Unicode
/// white-space property, a function of the character alone.
#[verifier::external_body]
pub(crate) fn char_is_ws(c: char) -> (r: bool)
    ensures
        r == is_ws(c),
{
    c.is_whitespace()
}

/// Relies on String::push: appends the character to the end of the string.
#[verifier::external_body]
pub(crate) fn push_char(s: &mut String, c: char)
    ensures
        final(s)@ == old(s)@.push(c),
{
    s.push(c)
}

/// The path with every character that is not alphanumeric replaced by `_`.
pub open spec fn sanitize(s: Seq<char>) -> Seq<char> {
    Seq::new(s.len(), |i: int| if is_alnum(s[i]) { s[i] } else { '_' })
}

pub fn sanitize_path(s: &str) -> (r: String)
    ensures
        r@ == sanitize(s@),
{
    let n = s.unicode_len();
    let mut out = String::new();
    let mut i: usize = 0;
    while i < n
        invariant
            i <= n,
            n == s@.len(),
            out@.len() == i,
            forall|k: int| 0 <= k < i ==> out@[k] == sanitize(s@)[k],
        decreases n - i,
    {
        let c = s.get_char(i);
        if char_is_alnum(c) {
            push_char(&mut out, c);
        } else {
            push_char(&mut out, '_');
        }
        i = i + 1;
    }
    assert(out@ =~= sanitize(s@));
    out
}

/// The strings joined with a single space between neighbours, as
/// `Vec::join(" ")` produces.
pub open spec fn join_spaced(args: Seq<Seq<char>>) -> Seq<char>
    decreases args.len(),
{
    if args.len() == 0 {
        Seq::empty()
    } else if args.len() == 1 {
        args[0]
    } else {
        join_spaced(args.drop_last()) + " "@ + args.last()
    }
}

pub fn join_flags(v: &Vec<String>) -> (r: String)
    ensures
        r@ == join_spaced(views(v@)),
{
    let mut out = String::new();
    let mut i: usize = 0;
    while i < v.len()
        invariant
            i <= v.len(),
            out@ == join_spaced(views(v@).take(i as int)),
        decreases v.len() - i,
    {
        if i > 0 {
            out.append(" ");
        }
        out.append(v[i].as_str());
        proof {
            let vs = views(v@);
            assert(vs.take(i + 1).drop_last() =~= vs.take(i as int));
            assert(vs.take(i + 1).last() == vs[i as int]);
            if i == 0 {
                assert(out@ =~= vs.take(1)[0]);
            }
        }
        i = i + 1;
    }
    proof {
        assert(views(v@).take(v@.len() as int) =~= views(v@));
    }
    out
}

/// The maximal runs of non-whitespace characters in `s`, in order, as
/// `str::split_whitespace` yields them.
pub open spec fn split_ws(s: Seq<char>) -> Seq<Seq<char>>
    decreases s.len(),
{
    if s.len() == 0 {
        Seq::empty()
    } else if is_ws(s.last()) {
        split_ws(s.drop_last())
    } else if s.len() == 1 || is_ws(s[s.len() - 2]) {
        split_ws(s.drop_last()).push(seq![s.last()])
    } else {
        let r = split_ws(s.drop_last());
        r.update(r.len() - 1, r.last().push(s.last()))
    }
}

pub fn split_flags(s: &str) -> (r: Vec<String>)
    ensures
        views(r@) == split_ws(s@),
{
    let n = s.unicode_len();
    let mut out: Vec<String> = Vec::new();
    let mut cur = String::new();
    let mut in_tok: bool = false;
    let mut i: usize = 0;
    while i < n
        invariant
            i <= n,
            n == s@.len(),
            in_tok <==> (cur@.len() > 0),
            (cur@.len() > 0) <==> (i > 0 && !is_ws(s@[i - 1])),
            cur@.len() == 0 ==> views(out@) == split_ws(s@.take(i as int)),
            cur@.len() > 0 ==> views(out@).push(cur@) == split_ws(s@.take(i as int)),
        decreases n - i,
    {
        let c = s.get_char(i);
        let ghost pre = s@.take(i as int);
        let ghost post = s@.take(i + 1);
        proof {
            assert(post.drop_last() =~= pre);
            assert(post.last() == s@[i as int]);
            if i > 0 {
                assert(post[post.len() - 2] == s@[i - 1]);
            }
        }
        if char_is_ws(c) {
            if in_tok {
                let done = cur;
                cur = String::new();
                in_tok = false;
                out.push(done);
                proof {
                    assert(views(out@) =~= views(out@.drop_last()).push(out@.last()@));
                }
            }
            assert(split_ws(post) == split_ws(pre));
        } else {
            if !in_tok {
                push_char(&mut cur, c);
                in_tok = true;
                proof {
                    assert(cur@ =~= seq![s@[i as int]]);
                    assert(split_ws(post) == split_ws(pre).push(seq![post.last()]));
                }
            } else {
                let ghost oldcur = cur@;
                push_char(&mut cur, c);
                proof {
                    let r = split_ws(pre);
                    assert(r == views(out@).push(oldcur));
                    assert(r.last() == oldcur);
                    assert(split_ws(post) == r.update(r.len() - 1, oldcur.push(s@[i as int])));
                    assert(r.update(r.len() - 1, cur@) =~= views(out@).push(cur@));
                }
            }
        }
        i = i + 1;
    }
    proof {
        assert(s@.take(n as int) =~= s@);
    }
    if in_tok {
        out.push(cur);
        proof {
            assert(views(out@) =~= views(out@.drop_last()).push(out@.last()@));
        }
    }
    out
}

/// Whether the standard string mentions `c++`, which selects the C++ family
/// compiler.
pub open spec fn mentions_cpp(s: Seq<char>) -> bool {
    exists|i: int|
        0 <= i && i + 3 <= s.len() && #[trigger] s[i] == 'c' && s[i + 1] == '+' && s[i + 2]
            == '+'
}

pub fn has_cpp(s: &str) -> (r: bool)
    ensures
        r == mentions_cpp(s@),
{
    let n = s.unicode_len();
    if n < 3 {
        assert(!mentions_cpp(s@));
        return false;
    }
    let mut i: usize = 0;
    while i <= n - 3
        invariant
            n == s@.len(),
            3 <= n,
            i <= n - 2,
            forall|k: int|
                0 <= k < i ==> !(#[trigger] s@[k] == 'c' && s@[k + 1] == '+' && s@[k + 2]
                    == '+'),
        decreases n - i,
    {
        if s.get_char(i) == 'c' && s.get_char(i + 1) == '+' && s.get_char(i + 2) == '+' {
            return true;
        }
        i = i + 1;
    }
    assert(!mentions_cpp(s@)) by {
        if mentions_cpp(s@) {
            let j = choose|j: int|
                0 <= j && j + 3 <= s@.len() && #[trigger] s@[j] == 'c' && s@[j + 1] == '+'
                    && s@[j + 2] == '+';
            assert(j < i);
        }
    }
    false
}

} // verus!
