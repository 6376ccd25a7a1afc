//! Room codes: four capital letters drawn at random.
use vstd::prelude::*;
use vstd::string::StrSliceExecFns;
use vstd::string::StringExecFns;

verus! {

/// The alphabet room codes are drawn from.
pub open spec fn letters() -> Seq<char> {
    "ABCDEFGHIJKLMNOPQRSTUVWXYZ"@
}

/// A room code is four capital letters.
pub open spec fn is_room_code(code: Seq<char>) -> bool {
    &&& code.len() == 4
    &&& forall|i: int| 0 <= i < 4 ==> 'A' <= #[trigger] code[i] <= 'Z'
}

proof fn lemma_letters_are_capitals()
    ensures
        letters().len() == 26,
        forall|d: int| 0 <= d < 26 ==> 'A' <= #[trigger] letters()[d] <= 'Z',
{
    reveal_strlit("ABCDEFGHIJKLMNOPQRSTUVWXYZ");
}

/// The room code spelled by `draws`: draw `d` stands for the `d`-th
/// letter of the alphabet, counting from 0.
pub fn code_from_draws(draws: &Vec<usize>) -> (code: String)
    requires
        forall|i: int| 0 <= i < draws.len() ==> #[trigger] draws[i] < 26,
    ensures
        code@ == draws@.map_values(|d: usize| letters()[d as int]),
{
    let alphabet = "ABCDEFGHIJKLMNOPQRSTUVWXYZ";
    proof {
        reveal_strlit("ABCDEFGHIJKLMNOPQRSTUVWXYZ");
    }
    let mut code = String::new();
    let mut i: usize = 0;
    while i < draws.len()
        invariant
            i <= draws.len(),
            alphabet@ == letters(),
            letters().len() == 26,
            forall|j: int| 0 <= j < draws.len() ==> #[trigger] draws[j] < 26,
            code@ == draws@.take(i as int).map_values(|d: usize| letters()[d as int]),
        decreases draws.len() - i,
    {
        let d: usize = draws[i];
        let letter = alphabet.substring_char(d, d + 1);
        code.append(letter);
        assert(draws@.take(i + 1).map_values(|d: usize| letters()[d as int]) =~= draws@.take(
            i as int,
        ).map_values(|d: usize| letters()[d as int]) + letters().subrange(d as int, d + 1));
        i = i + 1;
    }
    assert(draws@.take(draws.len() as int) =~= draws@);
    code
}

/// A fresh room code, four letters drawn independently and uniformly at
/// random. Codes are not checked against the rooms that already exist.
pub fn gen_password() -> (code: String)
    ensures
        is_room_code(code@),
{
    let mut draws: Vec<usize> = Vec::new();
    let mut i: usize = 0;
    while i < 4
        invariant
            i <= 4,
            draws.len() == i,
            forall|j: int| 0 <= j < draws.len() ==> #[trigger] draws[j] < 26,
        decreases 4 - i,
    {
        draws.push(random_below(26));
        i = i + 1;
    }
    let code = code_from_draws(&draws);
    proof {
        lemma_letters_are_capitals();
        assert forall|j: int| 0 <= j < 4 implies 'A' <= #[trigger] code@[j] <= 'Z' by {
            assert(code@[j] == letters()[draws@[j] as int]);
        }
    }
    code
}

/// A number drawn uniformly from `0..bound` by `rand::Rng::gen_range` on the
/// thread-local generator of `rand::thread_rng`. Claimed: the result is
/// below `bound`. `gen_range` panics on an empty range, which `requires`
/// rules out; the thread-local generator also panics when the operating
/// system's entropy source fails, which no input decides. Which number
/// comes back is left open.
#[verifier::external_body]
fn random_below(bound: usize) -> (n: usize)
    requires
        bound > 0,
    ensures
        n < bound,
{
    rand::Rng::gen_range(&mut rand::thread_rng(), 0..bound)
}

} // verus!
