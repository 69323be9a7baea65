//! Resolution of the precompiled runtime-support bitcode modules, and the
//! fixed facts about the accelerator toolchain installation.
//!
//! A runtime component is requested by name; a name outside the fixed
//! allow-list is dropped, never bound. An allowed name is bound to the
//! first available bitcode path whose file stem contains the name.

use vstd::prelude::*;

use crate::error::CompileError;
use crate::text::{
    file_stem_of, has_extension, seq_contains_seq, spec_file_stem, spec_has_extension, str_contains,
    str_eq,
};

verus! {

/// The fixed allow-list of installed runtime library names.
pub open spec fn spec_is_runtime_lib(n: Seq<char>) -> bool {
    ||| n == "alloc"@
    ||| n == "alloc_system"@
    ||| n == "compiler_builtins"@
    ||| n == "core"@
    ||| n == "getopts"@
    ||| n == "libc"@
    ||| n == "panic_abort"@
    ||| n == "panic_unwind"@
    ||| n == "std"@
    ||| n == "std_unicode"@
    ||| n == "term"@
    ||| n == "test"@
    ||| n == "unwind"@
}

/// Whether `name` is one of the installed runtime libraries.
pub fn is_runtime_lib(name: &str) -> (b: bool)
    ensures
        b == spec_is_runtime_lib(name@),
{
    str_eq(name, "alloc") || str_eq(name, "alloc_system") || str_eq(name, "compiler_builtins")
        || str_eq(name, "core") || str_eq(name, "getopts") || str_eq(name, "libc") || str_eq(
        name,
        "panic_abort",
    ) || str_eq(name, "panic_unwind") || str_eq(name, "std") || str_eq(name, "std_unicode")
        || str_eq(name, "term") || str_eq(name, "test") || str_eq(name, "unwind")
}

/// The allow-list in order, as owned strings.
pub fn runtime_libs() -> (r: Vec<String>)
    ensures
        r@.len() == 13,
        forall|i: int| 0 <= i < r@.len() ==> spec_is_runtime_lib(#[trigger] r@[i]@),
        r@[0]@ == "alloc"@,
        r@[1]@ == "alloc_system"@,
        r@[2]@ == "compiler_builtins"@,
        r@[3]@ == "core"@,
        r@[4]@ == "getopts"@,
        r@[5]@ == "libc"@,
        r@[6]@ == "panic_abort"@,
        r@[7]@ == "panic_unwind"@,
        r@[8]@ == "std"@,
        r@[9]@ == "std_unicode"@,
        r@[10]@ == "term"@,
        r@[11]@ == "test"@,
        r@[12]@ == "unwind"@,
{
    let mut v: Vec<String> = Vec::new();
    v.push(String::from_str("alloc"));
    v.push(String::from_str("alloc_system"));
    v.push(String::from_str("compiler_builtins"));
    v.push(String::from_str("core"));
    v.push(String::from_str("getopts"));
    v.push(String::from_str("libc"));
    v.push(String::from_str("panic_abort"));
    v.push(String::from_str("panic_unwind"));
    v.push(String::from_str("std"));
    v.push(String::from_str("std_unicode"));
    v.push(String::from_str("term"));
    v.push(String::from_str("test"));
    v.push(String::from_str("unwind"));
    v
}

/// Index of the first path in `avail` whose file stem contains `rt`, or
/// -1 when none does.
pub open spec fn first_match(avail: Seq<Seq<char>>, rt: Seq<char>) -> int
    decreases avail.len(),
{
    if avail.len() == 0 {
        -1
    } else if seq_contains_seq(spec_file_stem(avail.first()), rt) {
        0
    } else {
        let r = first_match(avail.drop_first(), rt);
        if r == -1 {
            -1
        } else {
            r + 1
        }
    }
}

pub proof fn lemma_first_match(avail: Seq<Seq<char>>, rt: Seq<char>)
    ensures
        -1 <= first_match(avail, rt) < avail.len(),
        first_match(avail, rt) == -1 ==> forall|k: int|
            0 <= k < avail.len() ==> !seq_contains_seq(spec_file_stem(#[trigger] avail[k]), rt),
        first_match(avail, rt) >= 0 ==> seq_contains_seq(
            spec_file_stem(avail[first_match(avail, rt)]),
            rt,
        ) && forall|k: int|
            0 <= k < first_match(avail, rt) ==> !seq_contains_seq(
                spec_file_stem(#[trigger] avail[k]),
                rt,
            ),
    decreases avail.len(),
{
    if avail.len() > 0 && !seq_contains_seq(spec_file_stem(avail.first()), rt) {
        lemma_first_match(avail.drop_first(), rt);
        assert(forall|k: int|
            1 <= k < avail.len() ==> avail.drop_first()[k - 1] == #[trigger] avail[k]);
    }
}

/// The bound runtime bitcode paths for the requested names, in request
/// order: a name outside the allow-list contributes nothing; an allowed
/// name contributes the first available path whose stem contains it.
pub open spec fn selected_runtimes(rts: Seq<Seq<char>>, avail: Seq<Seq<char>>) -> Seq<Seq<char>>
    decreases rts.len(),
{
    if rts.len() == 0 {
        Seq::empty()
    } else {
        let rest = selected_runtimes(rts.drop_last(), avail);
        let rt = rts.last();
        if spec_is_runtime_lib(rt) && first_match(avail, rt) >= 0 {
            rest.push(avail[first_match(avail, rt)])
        } else {
            rest
        }
    }
}

/// Bind each requested runtime component to an installed bitcode path.
///
/// `available` is the listing of the toolchain's runtime-bitcode
/// directory. Every allowed name must have a matching file there: a
/// correctly installed toolchain ships all thirteen components, so a miss
/// means the installation is broken and the caller must not get this far.
pub fn get_compiler_rt(runtimes: &Vec<String>, available: &Vec<String>) -> (r: Result<
    Vec<String>,
    CompileError,
>)
    requires
        forall|i: int|
            0 <= i < runtimes.deep_view().len() && spec_is_runtime_lib(
                #[trigger] runtimes.deep_view()[i],
            ) ==> first_match(available.deep_view(), runtimes.deep_view()[i]) >= 0,
    ensures
        r matches Ok(v) && v.deep_view() == selected_runtimes(
            runtimes.deep_view(),
            available.deep_view(),
        ),
{
    let ghost rts_dv = runtimes.deep_view();
    let ghost avail_dv = available.deep_view();
    let mut out: Vec<String> = Vec::new();
    let n = runtimes.len();
    for i in 0..n
        invariant
            n == runtimes.len(),
            rts_dv == runtimes.deep_view(),
            avail_dv == available.deep_view(),
            forall|t: int|
                0 <= t < rts_dv.len() && spec_is_runtime_lib(#[trigger] rts_dv[t]) ==> first_match(
                    avail_dv,
                    rts_dv[t],
                ) >= 0,
            out.deep_view() == selected_runtimes(rts_dv.take(i as int), avail_dv),
    {
        if is_runtime_lib(runtimes[i].as_str()) {
            let m = available.len();
            let mut j: usize = 0;
            let mut found = false;
            while j < m && !found
                invariant
                    m == available.len(),
                    avail_dv == available.deep_view(),
                    i < runtimes.len(),
                    rts_dv == runtimes.deep_view(),
                    0 <= j <= m,
                    forall|t: int|
                        0 <= t < j ==> !seq_contains_seq(
                            spec_file_stem(#[trigger] avail_dv[t]),
                            rts_dv[i as int],
                        ),
                    found ==> j < m && seq_contains_seq(
                        spec_file_stem(avail_dv[j as int]),
                        rts_dv[i as int],
                    ),
                decreases m - j, (if found {
                    0int
                } else {
                    1int
                }),
            {
                let stem = file_stem_of(available[j].as_str());
                if str_contains(stem.as_str(), runtimes[i].as_str()) {
                    found = true;
                } else {
                    j += 1;
                }
            }
            proof {
                lemma_first_match(avail_dv, rts_dv[i as int]);
            }
            if found {
                proof {
                    assert(first_match(avail_dv, rts_dv[i as int]) == j);
                }
                out.push(available[j].clone());
            } else {
                proof {
                    assert(first_match(avail_dv, rts_dv[i as int]) == -1);
                    assert(spec_is_runtime_lib(rts_dv[i as int]));
                    assert(false);
                }
            }
        }
        proof {
            assert(rts_dv.take(i + 1).drop_last() =~= rts_dv.take(i as int));
            assert(rts_dv.take(i + 1).last() == rts_dv[i as int]);
            assert(out.deep_view() =~= selected_runtimes(rts_dv.take(i + 1), avail_dv));
        }
    }
    proof {
        assert(rts_dv.take(n as int) =~= rts_dv);
    }
    Ok(out)
}

/// Runtime allow-list containment, binding half: an allowed name with at
/// least one matching file is bound to exactly one path, whose stem
/// contains the name.
pub proof fn lemma_runtime_allow_list_binds(rt: Seq<char>, avail: Seq<Seq<char>>)
    requires
        spec_is_runtime_lib(rt),
        first_match(avail, rt) >= 0,
    ensures
        selected_runtimes(seq![rt], avail).len() == 1,
        seq_contains_seq(spec_file_stem(selected_runtimes(seq![rt], avail)[0]), rt),
{
    lemma_first_match(avail, rt);
    let s = seq![rt];
    assert(s.drop_last() =~= Seq::<Seq<char>>::empty());
    assert(selected_runtimes(s.drop_last(), avail) =~= Seq::<Seq<char>>::empty());
    assert(s.last() == rt);
    assert(selected_runtimes(s, avail) =~= seq![avail[first_match(avail, rt)]]);
}

/// Runtime allow-list containment, rejection half: a name outside the
/// allow-list is never bound, and the resolution does not fail on it.
pub proof fn lemma_runtime_allow_list_rejects(rt: Seq<char>, avail: Seq<Seq<char>>)
    requires
        !spec_is_runtime_lib(rt),
    ensures
        selected_runtimes(seq![rt], avail).len() == 0,
{
    let s = seq![rt];
    assert(s.drop_last() =~= Seq::<Seq<char>>::empty());
    assert(selected_runtimes(s.drop_last(), avail) =~= Seq::<Seq<char>>::empty());
    assert(s.last() == rt);
}

/// The binding at position `i` of the resolved set answers an allowed,
/// requested component name whose stem it contains.
pub open spec fn binding_is_allowed(rts: Seq<Seq<char>>, avail: Seq<Seq<char>>, i: int) -> bool {
    exists|t: int|
        0 <= t < rts.len() && spec_is_runtime_lib(#[trigger] rts[t]) && seq_contains_seq(
            spec_file_stem(selected_runtimes(rts, avail)[i]),
            rts[t],
        )
}

/// The resolved set's invariant: every binding answers a requested name
/// that is on the allow-list; an unknown name never contributes one.
pub proof fn lemma_selected_runtimes_allowed(rts: Seq<Seq<char>>, avail: Seq<Seq<char>>)
    ensures
        forall|i: int|
            0 <= i < selected_runtimes(rts, avail).len() ==> binding_is_allowed(rts, avail, i),
    decreases rts.len(),
{
    if rts.len() > 0 {
        let prefix = rts.drop_last();
        lemma_selected_runtimes_allowed(prefix, avail);
        let prev = selected_runtimes(prefix, avail);
        let cur = selected_runtimes(rts, avail);
        let rt = rts.last();
        assert forall|i: int| 0 <= i < cur.len() implies binding_is_allowed(rts, avail, i) by {
            if i < prev.len() {
                assert(cur[i] == prev[i]);
                assert(binding_is_allowed(prefix, avail, i));
                let t = choose|t: int|
                    0 <= t < prefix.len() && spec_is_runtime_lib(#[trigger] prefix[t])
                        && seq_contains_seq(spec_file_stem(prev[i]), prefix[t]);
                assert(rts[t] == prefix[t]);
                assert(0 <= t < rts.len() && spec_is_runtime_lib(rts[t]) && seq_contains_seq(
                    spec_file_stem(cur[i]),
                    rts[t],
                ));
            } else {
                assert(spec_is_runtime_lib(rt) && first_match(avail, rt) >= 0);
                assert(cur[i] == avail[first_match(avail, rt)]);
                lemma_first_match(avail, rt);
                let t = rts.len() - 1;
                assert(0 <= t < rts.len() && spec_is_runtime_lib(rts[t]) && seq_contains_seq(
                    spec_file_stem(cur[i]),
                    rts[t],
                ));
            }
        }
    }
}

/// The paths among `paths` whose file name carries the extension `ext`,
/// in order.
pub open spec fn filtered_by_extension(paths: Seq<Seq<char>>, ext: Seq<char>) -> Seq<Seq<char>>
    decreases paths.len(),
{
    if paths.len() == 0 {
        Seq::empty()
    } else {
        let rest = filtered_by_extension(paths.drop_last(), ext);
        if spec_has_extension(paths.last(), ext) {
            rest.push(paths.last())
        } else {
            rest
        }
    }
}

/// Keep the paths that carry the extension `ext`: the bitcode modules of
/// a directory listing, or the dependency archives of a build tree.
pub fn filter_by_extension(paths: &Vec<String>, ext: &str) -> (r: Vec<String>)
    ensures
        r.deep_view() == filtered_by_extension(paths.deep_view(), ext@),
{
    let ghost dv = paths.deep_view();
    let mut out: Vec<String> = Vec::new();
    let n = paths.len();
    for i in 0..n
        invariant
            n == paths.len(),
            dv == paths.deep_view(),
            out.deep_view() == filtered_by_extension(dv.take(i as int), ext@),
    {
        if has_extension(paths[i].as_str(), ext) {
            out.push(paths[i].clone());
        }
        proof {
            assert(dv.take(i + 1).drop_last() =~= dv.take(i as int));
            assert(dv.take(i + 1).last() == dv[i as int]);
            assert(out.deep_view() =~= filtered_by_extension(dv.take(i + 1), ext@));
        }
    }
    proof {
        assert(dv.take(n as int) =~= dv);
    }
    out
}

/// Where the toolchain keeps the accelerator target's runtime bitcode,
/// below the toolchain's sysroot.
pub fn nvptx_lib_path(sysroot: &str) -> (r: String)
    ensures
        r@ == sysroot@ + "/lib/rustlib/nvptx64-nvidia-cuda/lib"@,
{
    let mut out = String::from_str(sysroot);
    out.append("/lib/rustlib/nvptx64-nvidia-cuda/lib");
    out
}

} // verus!
