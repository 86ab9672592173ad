use vstd::prelude::*;
use vstd::string::StringExecFns;
use crate::hex::{hex_of, to_hex, lemma_hex_of_injective};
use crate::text::{views, sanitize, sanitize_path, join_spaced, join_flags};

verus! {

/// What the 128-bit MetroHash digest of a string is; it depends on the
/// characters alone.
pub uninterp spec fn metro128_of(s: Seq<char>) -> u128;

/// Relies on fasthash's `metro::hash128` (MetroHash 128, seed 0): the
/// digest is a pure function of the input bytes, and the UTF-8 bytes of a
/// `&str` are a pure function of its characters.
#[verifier::external_body]
pub(crate) fn metro_hash128(s: &str) -> (r: u128)
    ensures
        r == metro128_of(s@),
{
    fasthash::metro::hash128(s.as_bytes())
}

/// An object path: the stem under its namespace prefix, an underscore, the
/// invocation hash in hexadecimal, and the object extension.
pub open spec fn object_path(prefix: Seq<char>, stem: Seq<char>, h: u128) -> Seq<char> {
    prefix + stem + "_"@ + hex_of(h as nat) + ".o"@
}

/// Derives `object_path(prefix, stem, h)` executably; `stem` is already
/// sanitized or otherwise fixed by the caller.
pub fn derive_object_path(prefix: &str, stem: &str, h: u128) -> (r: String)
    ensures
        r@ == object_path(prefix@, stem@, h),
{
    let mut out = String::from_str(prefix);
    out.append(stem);
    out.append("_");
    let hx = to_hex(h);
    out.append(hx.as_str());
    out.append(".o");
    out
}

/// The warning and error-escalation flags every compile unit gets.
pub open spec fn warn_flags() -> Seq<Seq<char>> {
    seq![
        "-Werror=implicit-function-declaration"@,
        "-Werror=incompatible-pointer-types"@,
        "-Werror=return-type"@,
        "-Wpedantic"@,
        "-Wall"@,
        "-Wno-unused-function"@,
        "-Wno-parentheses-equality"@,
        "-Werror=pointer-sign"@,
        "-Werror=int-to-pointer-cast"@,
    ]
}

/// The per-unit argument list that is hashed, the same shape for foreign
/// objects and generated translation units: the baseline compile flags,
/// the warning escalations, then `-c`, the source path, and `-o`; the
/// output path itself is excluded, being derived from this very list.
pub open spec fn unit_args(cflags: Seq<Seq<char>>, source: Seq<char>) -> Seq<Seq<char>> {
    cflags + warn_flags() + seq!["-c"@, source, "-o"@]
}

/// The derived object path for a foreign object unit: its stem is the
/// sanitized source path.
pub open spec fn cobject_target(cflags: Seq<Seq<char>>, inp: Seq<char>) -> Seq<char> {
    object_path("./target/c/"@, sanitize(inp), metro128_of(join_spaced(unit_args(cflags, inp))))
}

/// The derived object path for a generated translation unit: its stem is
/// the unit's logical name, used as given.
pub open spec fn build_target(
    cflags: Seq<Seq<char>>,
    name: Seq<char>,
    filepath: Seq<char>,
) -> Seq<char> {
    object_path("./target/zz/"@, name, metro128_of(join_spaced(unit_args(cflags, filepath))))
}

/// Builds the hashable argument list for one compile unit.
pub fn unit_arg_list(cflags: &Vec<String>, source: &str) -> (r: Vec<String>)
    ensures
        views(r@) == unit_args(views(cflags@), source@),
{
    let mut args: Vec<String> = Vec::new();
    let mut i: usize = 0;
    while i < cflags.len()
        invariant
            i <= cflags.len(),
            views(args@) =~= views(cflags@).take(i as int),
        decreases cflags.len() - i,
    {
        args.push(cflags[i].clone());
        proof {
            assert(views(args@) =~= views(args@.drop_last()).push(args@.last()@));
            assert(views(cflags@).take(i + 1) =~= views(cflags@).take(i as int).push(
                cflags@[i as int]@,
            ));
        }
        i = i + 1;
    }
    proof {
        assert(views(cflags@).take(cflags@.len() as int) =~= views(cflags@));
    }
    args.push(String::from_str("-Werror=implicit-function-declaration"));
    args.push(String::from_str("-Werror=incompatible-pointer-types"));
    args.push(String::from_str("-Werror=return-type"));
    args.push(String::from_str("-Wpedantic"));
    args.push(String::from_str("-Wall"));
    args.push(String::from_str("-Wno-unused-function"));
    args.push(String::from_str("-Wno-parentheses-equality"));
    args.push(String::from_str("-Werror=pointer-sign"));
    args.push(String::from_str("-Werror=int-to-pointer-cast"));
    args.push(String::from_str("-c"));
    args.push(String::from_str(source));
    args.push(String::from_str("-o"));
    proof {
        assert(views(args@) =~= unit_args(views(cflags@), source@));
    }
    args
}

/// Derives the content-addressed object path for a foreign object unit
/// from its full argument list.
pub fn cobject_object_path(cflags: &Vec<String>, inp: &str) -> (r: String)
    ensures
        r@ == cobject_target(views(cflags@), inp@),
{
    let args = unit_arg_list(cflags, inp);
    let joined = join_flags(&args);
    let h = metro_hash128(joined.as_str());
    let stem = sanitize_path(inp);
    derive_object_path("./target/c/", stem.as_str(), h)
}

/// Derives the content-addressed object path for a generated translation
/// unit from its full argument list.
pub fn build_object_path(cflags: &Vec<String>, name: &str, filepath: &str) -> (r: String)
    ensures
        r@ == build_target(views(cflags@), name@, filepath@),
{
    let args = unit_arg_list(cflags, filepath);
    let joined = join_flags(&args);
    let h = metro_hash128(joined.as_str());
    derive_object_path("./target/zz/", name, h)
}

/// Deriving the output path is deterministic: equal argument lists and equal
/// source paths always yield the same path.
pub proof fn lemma_naming_deterministic(
    cflags1: Seq<Seq<char>>,
    inp1: Seq<char>,
    cflags2: Seq<Seq<char>>,
    inp2: Seq<char>,
)
    ensures
        cflags1 == cflags2 && inp1 == inp2 ==> cobject_target(cflags1, inp1) == cobject_target(
            cflags2,
            inp2,
        ),
{
}

/// Under one namespace and stem, distinct invocation hashes yield distinct
/// object paths: a change in any flag that changes the hash forces a fresh
/// compile step even though no source timestamp moved.
pub proof fn lemma_hash_change_invalidates(
    prefix: Seq<char>,
    stem: Seq<char>,
    h1: u128,
    h2: u128,
)
    ensures
        h1 != h2 ==> object_path(prefix, stem, h1) != object_path(prefix, stem, h2),
{
    if h1 != h2 && object_path(prefix, stem, h1) == object_path(prefix, stem, h2) {
        let t1 = object_path(prefix, stem, h1);
        let t2 = object_path(prefix, stem, h2);
        let k = prefix.len() + stem.len() + "_"@.len();
        let x1 = hex_of(h1 as nat);
        let x2 = hex_of(h2 as nat);
        assert(t1.len() == k + x1.len() + ".o"@.len());
        assert(t2.len() == k + x2.len() + ".o"@.len());
        assert(x1.len() == x2.len());
        assert forall|i: int| 0 <= i < x1.len() implies x1[i] == x2[i] by {
            assert(t1[k + i] == x1[i]);
            assert(t2[k + i] == x2[i]);
        }
        assert(x1 =~= x2);
        lemma_hex_of_injective(h1 as nat, h2 as nat);
    }
}

/// The flag-change invalidation law at the level of whole flag sets: if the
/// two invocations hash differently, their derived object paths differ.
pub proof fn lemma_flag_change_invalidates(
    cflags1: Seq<Seq<char>>,
    cflags2: Seq<Seq<char>>,
    inp: Seq<char>,
)
    ensures
        metro128_of(join_spaced(unit_args(cflags1, inp))) != metro128_of(
            join_spaced(unit_args(cflags2, inp)),
        ) ==> cobject_target(cflags1, inp) != cobject_target(cflags2, inp),
{
    lemma_hash_change_invalidates(
        "./target/c/"@,
        sanitize(inp),
        metro128_of(join_spaced(unit_args(cflags1, inp))),
        metro128_of(join_spaced(unit_args(cflags2, inp))),
    );
}

/// The two object namespaces are disjoint: a foreign object's path and a
/// generated unit's path never collide, whatever their stems and hashes.
pub proof fn lemma_namespaces_disjoint(
    stem1: Seq<char>,
    h1: u128,
    stem2: Seq<char>,
    h2: u128,
)
    ensures
        object_path("./target/c/"@, stem1, h1) != object_path("./target/zz/"@, stem2, h2),
{
    reveal_strlit("./target/c/");
    reveal_strlit("./target/zz/");
    let p1 = object_path("./target/c/"@, stem1, h1);
    let p2 = object_path("./target/zz/"@, stem2, h2);
    assert(p1[9] == 'c');
    assert(p2[9] == 'z');
}

/// The flag-change invalidation law for generated translation units.
pub proof fn lemma_build_flag_change_invalidates(
    cflags1: Seq<Seq<char>>,
    cflags2: Seq<Seq<char>>,
    name: Seq<char>,
    filepath: Seq<char>,
)
    ensures
        metro128_of(join_spaced(unit_args(cflags1, filepath))) != metro128_of(
            join_spaced(unit_args(cflags2, filepath)),
        ) ==> build_target(cflags1, name, filepath) != build_target(cflags2, name, filepath),
{
    lemma_hash_change_invalidates(
        "./target/zz/"@,
        name,
        metro128_of(join_spaced(unit_args(cflags1, filepath))),
        metro128_of(join_spaced(unit_args(cflags2, filepath))),
    );
}

} // verus!
