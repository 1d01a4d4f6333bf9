//! Splitting the quiet flag from the time tokens of a command line.

use vstd::prelude::*;
use vstd::string::*;

verus! {

/// The two spellings of the quiet flag: `-q` and `--quiet`.
pub open spec fn is_quiet_flag(token: Seq<char>) -> bool {
    token == seq!['-', 'q'] || token == seq!['-', '-', 'q', 'u', 'i', 'e', 't']
}

/// The tokens as sequences of characters, in their order.
pub open spec fn texts(tokens: Seq<String>) -> Seq<Seq<char>> {
    tokens.map_values(|t: String| t@)
}

/// Whether a token is one of the two spellings of the quiet flag.
pub fn is_quiet(token: &String) -> (quiet: bool)
    ensures
        quiet == is_quiet_flag(token@),
{
    let short = String::from_str("-q");
    let long = String::from_str("--quiet");
    proof {
        reveal_strlit("-q");
        reveal_strlit("--quiet");
        assert("-q"@ =~= seq!['-', 'q']);
        assert("--quiet"@ =~= seq!['-', '-', 'q', 'u', 'i', 'e', 't']);
    }
    *token == short || *token == long
}

/// Splits raw arguments into the quiet flag and the time tokens: the flag is
/// set when any token is a quiet flag, wherever it stands, and the time tokens
/// are all the others in the order they came in.
pub fn split_args(raw: &[String]) -> (parsed: (bool, Vec<String>))
    ensures
        parsed.0 == exists|i: int| 0 <= i < raw@.len() && is_quiet_flag(#[trigger] raw@[i]@),
        texts(parsed.1@) == texts(raw@).filter(|t: Seq<char>| !is_quiet_flag(t)),
{
    let mut quiet = false;
    let mut time_args: Vec<String> = Vec::new();
    let mut i: usize = 0;
    while i < raw.len()
        invariant
            0 <= i <= raw@.len(),
            quiet == exists|j: int| 0 <= j < i && is_quiet_flag(#[trigger] raw@[j]@),
            texts(time_args@) == texts(raw@.take(i as int)).filter(
                |t: Seq<char>| !is_quiet_flag(t),
            ),
        decreases raw@.len() - i,
    {
        let token = &raw[i];
        let ghost before = texts(raw@.take(i as int));
        let ghost keep = |t: Seq<char>| !is_quiet_flag(t);
        proof {
            assert(raw@.take(i + 1) =~= raw@.take(i as int).push(raw@[i as int]));
            assert(texts(raw@.take(i + 1)) =~= before.push(token@));
            assert(before.push(token@).drop_last() =~= before);
            reveal(Seq::filter);
        }
        if is_quiet(token) {
            quiet = true;
        } else {
            let ghost kept = texts(time_args@);
            time_args.push(token.clone());
            proof {
                assert(texts(time_args@) =~= kept.push(token@));
            }
        }
        i += 1;
    }
    proof {
        assert(raw@.take(raw@.len() as int) =~= raw@);
    }
    (quiet, time_args)
}

} // verus!
