//! The decisions made when the child process is started: which
//! binary to run and which entry-point script to hand it. The checks
//! for existence on disk happen outside; the choice among the
//! answers is decided here and proved: an explicit override wins when
//! it exists, then the first well-known path that exists, then the
//! bare command name left to the search path.

use vstd::prelude::*;

verus! {

/// The first of `cands` whose flag is set, or `fallback` when none is.
pub open spec fn first_existing(cands: Seq<Seq<char>>, ok: Seq<bool>, fallback: Seq<char>) -> Seq<char>
    decreases cands.len(),
{
    if cands.len() == 0 {
        fallback
    } else if ok[0] {
        cands[0]
    } else {
        first_existing(cands.drop_first(), ok.drop_first(), fallback)
    }
}

/// The binary that is run: the override when it names an existing
/// path, else the first existing well-known path, else the fallback
/// command name.
pub open spec fn chosen_binary(
    ov: Option<Seq<char>>,
    ov_ok: bool,
    cands: Seq<Seq<char>>,
    ok: Seq<bool>,
    fallback: Seq<char>,
) -> Seq<char> {
    match ov {
        Some(p) => if ov_ok {
            p
        } else {
            first_existing(cands, ok, fallback)
        },
        None => first_existing(cands, ok, fallback),
    }
}

/// Picks the child binary. `override_exists` and `exists` report, in
/// order, whether the override and each candidate name an existing
/// path on disk.
#[verifier::loop_isolation(false)]
pub fn choose_binary(
    override_path: Option<String>,
    override_exists: bool,
    candidates: Vec<String>,
    exists: &Vec<bool>,
    fallback: String,
) -> (r: String)
    requires
        candidates@.len() == exists@.len(),
    ensures
        r@ == chosen_binary(
            match override_path {
                Some(p) => Some(p@),
                None => None,
            },
            override_exists,
            candidates@.map_values(|s: String| s@),
            exists@,
            fallback@,
        ),
{
    let ghost cviews = candidates@.map_values(|s: String| s@);
    if let Some(p) = override_path {
        if override_exists {
            return p;
        }
    }
    let n = candidates.len();
    let mut i: usize = 0;
    let mut candidates = candidates;
    proof {
        assert(cviews.skip(0) =~= cviews);
        assert(exists@.skip(0) =~= exists@);
    }
    while i < n
        invariant
            n == candidates@.len(),
            n == exists@.len(),
            i <= n,
            cviews == candidates@.map_values(|s: String| s@),
            first_existing(cviews, exists@, fallback@)
                == first_existing(cviews.skip(i as int), exists@.skip(i as int), fallback@),
        decreases n - i,
    {
        proof {
            assert(cviews.skip(i as int)[0] == cviews[i as int]);
            assert(exists@.skip(i as int)[0] == exists@[i as int]);
            assert(cviews.skip(i as int).drop_first() =~= cviews.skip(i as int + 1));
            assert(exists@.skip(i as int).drop_first() =~= exists@.skip(i as int + 1));
        }
        if exists[i] {
            let ghost k = i as int;
            let p = candidates.remove(i);
            proof {
                assert(p@ == cviews[k]);
            }
            return p;
        }
        i = i + 1;
    }
    proof {
        assert(cviews.skip(n as int) =~= Seq::<Seq<char>>::empty());
        assert(exists@.skip(n as int) =~= Seq::<bool>::empty());
    }
    fallback
}

/// The well-known installation paths tried for the runtime, in order.
pub fn default_runtime_candidates() -> (r: Vec<String>)
    ensures
        r@.len() == 3,
        r@[0]@ == "/opt/homebrew/bin/node"@,
        r@[1]@ == "/usr/local/bin/node"@,
        r@[2]@ == "/usr/bin/node"@,
{
    let mut v: Vec<String> = Vec::new();
    v.push(String::from_str("/opt/homebrew/bin/node"));
    v.push(String::from_str("/usr/local/bin/node"));
    v.push(String::from_str("/usr/bin/node"));
    v
}

/// The bare command name used when no well-known path exists.
pub fn default_runtime_command() -> (r: String)
    ensures
        r@ == "node"@,
{
    String::from_str("node")
}

/// Picks the child entry-point script: an explicit override wins,
/// otherwise the built-in default is used.
pub fn choose_script(override_path: Option<String>, default_path: String) -> (r: String)
    ensures
        match override_path {
            Some(p) => r@ == p@,
            None => r@ == default_path@,
        },
{
    match override_path {
        Some(p) => p,
        None => default_path,
    }
}

} // verus!
