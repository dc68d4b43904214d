//! The sample greeting problem: a fuzzed input is a list of names in
//! an order drawn from a seeded generator, the expected output greets
//! each name, and the judge compares submissions up to surrounding
//! white space.

use vstd::multiset::Multiset;
use vstd::prelude::*;

use crate::chars::{is_space, is_space_char, str_chars, str_eq};
use crate::lex::views_of;

verus! {

#[verifier::external_type_specification]
#[verifier::external_body]
pub struct ExChaCha20Rng(rand_chacha::ChaCha20Rng);

/// Relies on rand's SeedableRng::seed_from_u64 for ChaCha20Rng: builds
/// a generator from the seed.
#[verifier::external_body]
fn rng_from_seed(seed: u64) -> rand_chacha::ChaCha20Rng {
    <rand_chacha::ChaCha20Rng as rand::SeedableRng>::seed_from_u64(seed)
}

/// Relies on rand's RngExt::random_range over `0..n`: the result lies in
/// the range, which must not be empty (the call panics on an empty
/// range).
#[verifier::external_body]
fn draw_index(rng: &mut rand_chacha::ChaCha20Rng, n: usize) -> (r: usize)
    requires
        n >= 1,
    ensures
        r < n,
{
    <rand_chacha::ChaCha20Rng as rand::RngExt>::random_range(rng, 0..n)
}

/// The names the problem greets.
pub open spec fn base_names() -> Seq<Seq<char>> {
    seq!["Alice"@, "Bob"@, "Graydon"@, "Ferris"@, "Jane"@, "John"@, "Eve"@]
}

/// The greeting line for one name.
pub open spec fn greeting_of(name: Seq<char>) -> Seq<char> {
    "Hello, "@ + name + "!"@
}

/// Lines joined with single newlines.
pub open spec fn join_nl(ws: Seq<Seq<char>>) -> Seq<char>
    decreases ws.len(),
{
    if ws.len() == 0 {
        Seq::empty()
    } else if ws.len() == 1 {
        ws[0]
    } else {
        join_nl(ws.drop_last()) + seq!['\n'] + ws.last()
    }
}

pub proof fn lemma_join_nl_push(ws: Seq<Seq<char>>, w: Seq<char>)
    ensures
        ws.len() == 0 ==> join_nl(ws.push(w)) == w,
        ws.len() >= 1 ==> join_nl(ws.push(w)) == join_nl(ws) + seq!['\n'] + w,
{
    assert(ws.push(w).drop_last() =~= ws);
    assert(ws.push(w).last() == w);
    if ws.len() == 0 {
        assert(join_nl(ws.push(w)) == ws.push(w)[0]);
    }
}

/// `s` without its leading white space.
pub open spec fn trim_start(s: Seq<char>) -> Seq<char>
    decreases s.len(),
{
    if s.len() > 0 && is_space_char(s[0]) {
        trim_start(s.drop_first())
    } else {
        s
    }
}

/// `s` without its trailing white space.
pub open spec fn trim_end(s: Seq<char>) -> Seq<char>
    decreases s.len(),
{
    if s.len() > 0 && is_space_char(s.last()) {
        trim_end(s.drop_last())
    } else {
        s
    }
}

/// `s` without surrounding white space, as `str::trim` strips it.
pub open spec fn spec_trim(s: Seq<char>) -> Seq<char> {
    trim_end(trim_start(s))
}

pub proof fn lemma_trim_start_skip(s: Seq<char>, a: int)
    requires
        0 <= a <= s.len(),
        forall|j: int| 0 <= j < a ==> is_space_char(s[j]),
        a == s.len() || !is_space_char(s[a]),
    ensures
        trim_start(s) == s.skip(a),
    decreases a,
{
    if a == 0 {
        assert(s.skip(0) =~= s);
    } else {
        assert(is_space_char(s[0]));
        assert(forall|j: int| 0 <= j < a - 1 ==> s.drop_first()[j] == s[j + 1]);
        if a < s.len() {
            assert(s.drop_first()[a - 1] == s[a]);
        }
        lemma_trim_start_skip(s.drop_first(), a - 1);
        assert(s.drop_first().skip(a - 1) =~= s.skip(a));
    }
}

pub proof fn lemma_trim_end_take(s: Seq<char>, b: int)
    requires
        0 <= b <= s.len(),
        forall|j: int| b <= j < s.len() ==> is_space_char(s[j]),
        b == 0 || !is_space_char(s[b - 1]),
    ensures
        trim_end(s) == s.take(b),
    decreases s.len() - b,
{
    if b == s.len() {
        assert(s.take(b) =~= s);
    } else {
        assert(is_space_char(s.last()));
        assert(forall|j: int| 0 <= j < s.len() - 1 ==> s.drop_last()[j] == s[j]);
        lemma_trim_end_take(s.drop_last(), b);
        assert(s.drop_last().take(b) =~= s.take(b));
    }
}

/// Strips surrounding white space.
pub fn trim_str(s: &str) -> (r: String)
    ensures
        r@ == spec_trim(s@),
{
    let v = str_chars(s);
    let ghost gs = s@;
    let mut a: usize = 0;
    while a < v.len() && is_space(v[a])
        invariant
            v@ == gs,
            a <= gs.len(),
            forall|j: int| 0 <= j < a ==> is_space_char(gs[j]),
        decreases v@.len() - a,
    {
        a = a + 1;
    }
    proof {
        lemma_trim_start_skip(gs, a as int);
    }
    let mut b: usize = v.len();
    while b > a && is_space(v[b - 1])
        invariant
            v@ == gs,
            a <= b <= gs.len(),
            forall|j: int| b <= j < gs.len() ==> is_space_char(gs[j]),
        decreases b,
    {
        b = b - 1;
    }
    let mid = crate::chars::sub_chars(&v, a, b);
    proof {
        let t = gs.skip(a as int);
        let bb = b - a;
        assert forall|j: int| bb <= j < t.len() implies is_space_char(t[j]) by {
            assert(t[j] == gs[j + a]);
        }
        if b > a {
            assert(t[bb - 1] == gs[b as int - 1]);
        }
        lemma_trim_end_take(t, bb as int);
        assert(t.take(bb as int) =~= gs.subrange(a as int, b as int));
    }
    crate::chars::chars_string(&mid)
}

/// Whether a submission matches the expected output, surrounding white
/// space aside.
pub fn judge_output(expected: &str, got: &str) -> (r: bool)
    ensures
        r == (spec_trim(expected@) == spec_trim(got@)),
{
    let te = trim_str(expected);
    let tg = trim_str(got);
    str_eq(te.as_str(), tg.as_str())
}

fn name_pool() -> (r: Vec<String>)
    ensures
        views_of(r@) == base_names(),
{
    let mut v: Vec<String> = Vec::new();
    v.push("Alice".to_owned());
    v.push("Bob".to_owned());
    v.push("Graydon".to_owned());
    v.push("Ferris".to_owned());
    v.push("Jane".to_owned());
    v.push("John".to_owned());
    v.push("Eve".to_owned());
    proof {
        assert(views_of(v@) =~= base_names());
    }
    v
}

/// Draws the seven names in an order decided by the generator: the
/// result is a permutation of the pool.
pub fn names(seed: u64) -> (r: Vec<String>)
    ensures
        views_of(r@).to_multiset() == base_names().to_multiset(),
{
    let mut pool = name_pool();
    let mut chosen: Vec<String> = Vec::new();
    let mut rng = rng_from_seed(seed);
    proof {
        assert(views_of(chosen@) =~= Seq::<Seq<char>>::empty());
        views_of(chosen@).to_multiset_ensures();
        assert(views_of(chosen@).to_multiset() =~= Multiset::<Seq<char>>::empty());
        assert(views_of(chosen@).to_multiset().add(views_of(pool@).to_multiset())
            =~= views_of(pool@).to_multiset());
    }
    while pool.len() > 0
        invariant
            views_of(chosen@).to_multiset().add(views_of(pool@).to_multiset())
                == base_names().to_multiset(),
        decreases pool@.len(),
    {
        let k = draw_index(&mut rng, pool.len());
        let ghost opool = views_of(pool@);
        let ghost ochosen = views_of(chosen@);
        let s = pool.remove(k);
        chosen.push(s);
        proof {
            assert(views_of(pool@) =~= opool.remove(k as int));
            assert(views_of(chosen@) =~= ochosen.push(opool[k as int]));
            opool.to_multiset_ensures();
            ochosen.to_multiset_ensures();
            assert(views_of(chosen@).to_multiset() =~= ochosen.to_multiset().insert(
                opool[k as int],
            ));
            assert(views_of(pool@).to_multiset() =~= opool.to_multiset().remove(
                opool[k as int],
            ));
            assert(opool.to_multiset().contains(opool[k as int]));
            assert(views_of(chosen@).to_multiset().add(views_of(pool@).to_multiset())
                =~= ochosen.to_multiset().add(opool.to_multiset()));
        }
    }
    proof {
        assert(views_of(pool@) =~= Seq::<Seq<char>>::empty());
        views_of(pool@).to_multiset_ensures();
        assert(views_of(pool@).to_multiset() =~= Multiset::<Seq<char>>::empty());
        assert(views_of(chosen@).to_multiset() =~= base_names().to_multiset());
    }
    chosen
}

/// Joins lines with newlines.
fn join_lines(v: &Vec<String>) -> (r: String)
    ensures
        r@ == join_nl(views_of(v@)),
{
    let ghost gvs = views_of(v@);
    let mut out = String::new();
    let mut k: usize = 0;
    while k < v.len()
        invariant
            k <= v@.len(),
            gvs == views_of(v@),
            out@ == join_nl(gvs.subrange(0, k as int)),
        decreases v@.len() - k,
    {
        proof {
            assert(gvs.subrange(0, k as int + 1) =~= gvs.subrange(0, k as int).push(
                gvs[k as int],
            ));
            lemma_join_nl_push(gvs.subrange(0, k as int), gvs[k as int]);
        }
        if k > 0 {
            out.append("\n");
            proof {
                reveal_strlit("\n");
                assert("\n"@ =~= seq!['\n']);
            }
        } else {
            proof {
                assert(gvs.subrange(0, 0) =~= Seq::<Seq<char>>::empty());
            }
        }
        out.append(v[k].as_str());
        k = k + 1;
    }
    proof {
        assert(gvs.subrange(0, gvs.len() as int) =~= gvs);
    }
    out
}

/// The greeting line for one name.
fn greeting(name: &str) -> (r: String)
    ensures
        r@ == greeting_of(name@),
{
    let mut out = "Hello, ".to_owned();
    out.append(name);
    out.append("!");
    out
}

/// A fuzzed input for the problem: the drawn names, one per line.
pub fn fuzz(seed: u64) -> (r: String)
    ensures
        exists|p: Seq<Seq<char>>|
            #[trigger] p.to_multiset() == base_names().to_multiset() && r@ == join_nl(p),
{
    let ns = names(seed);
    let r = join_lines(&ns);
    proof {
        assert(views_of(ns@).to_multiset() == base_names().to_multiset() && r@ == join_nl(
            views_of(ns@),
        ));
    }
    r
}

/// The expected output for a fuzzed input: a greeting per drawn name.
pub fn solution(seed: u64) -> (r: String)
    ensures
        exists|p: Seq<Seq<char>>|
            #[trigger] p.to_multiset() == base_names().to_multiset() && r@ == join_nl(
                p.map_values(|n: Seq<char>| greeting_of(n)),
            ),
{
    let ns = names(seed);
    let r = solution_lines(&ns);
    proof {
        assert(views_of(ns@).to_multiset() == base_names().to_multiset() && r@ == join_nl(
            views_of(ns@).map_values(|n: Seq<char>| greeting_of(n)),
        ));
    }
    r
}

/// The greeting lines for the given names, joined with newlines.
fn solution_lines(ns: &Vec<String>) -> (r: String)
    ensures
        r@ == join_nl(views_of(ns@).map_values(|n: Seq<char>| greeting_of(n))),
{
    let mut greets: Vec<String> = Vec::new();
    let mut i: usize = 0;
    while i < ns.len()
        invariant
            i <= ns@.len(),
            greets@.len() == i,
            forall|j: int|
                0 <= j < i ==> views_of(greets@)[j] == greeting_of(views_of(ns@)[j]),
        decreases ns@.len() - i,
    {
        let g = greeting(ns[i].as_str());
        let ghost og = greets@;
        greets.push(g);
        proof {
            assert(views_of(greets@) =~= views_of(og).push(
                greeting_of(views_of(ns@)[i as int]),
            ));
        }
        i = i + 1;
    }
    proof {
        assert(views_of(greets@) =~= views_of(ns@).map_values(|n: Seq<char>| greeting_of(n)));
    }
    join_lines(&greets)
}

/// Checks a submission for the seed: accepted exactly when it matches
/// the expected output up to surrounding white space; a rejection
/// carries a fixed message.
pub fn judge(seed: u64, input: &str) -> (r: Result<(), String>)
    ensures
        exists|p: Seq<Seq<char>>|
            #[trigger] p.to_multiset() == base_names().to_multiset() && (r is Ok <==> spec_trim(
                input@,
            ) == spec_trim(join_nl(p.map_values(|n: Seq<char>| greeting_of(n))))),
        r is Err ==> r->Err_0@ == "Incorrect solution."@,
{
    let ns = names(seed);
    let sol = solution_lines(&ns);
    let good = judge_output(sol.as_str(), input);
    proof {
        let p = views_of(ns@);
        assert(p.to_multiset() == base_names().to_multiset() && (good <==> spec_trim(input@)
            == spec_trim(join_nl(p.map_values(|n: Seq<char>| greeting_of(n))))));
    }
    if good {
        Ok(())
    } else {
        Err("Incorrect solution.".to_owned())
    }
}

} // verus!
