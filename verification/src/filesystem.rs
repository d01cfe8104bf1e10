//! File-name filtering: which of the selected or dropped files the batch
//! takes, decided by a configurable pattern (by default the case-variant
//! `jpg`/`jpeg`/`png` extensions).
use vstd::prelude::*;

verus! {

/// Whether `pattern`, compiled as a regular expression, matches `text`;
/// a pattern that does not compile matches nothing. The outcome is a
/// function of the two strings alone.
pub uninterp spec fn regex_match(pattern: Seq<char>, text: Seq<char>) -> bool;

/// Relies on regex::Regex::new and regex::Regex::is_match: whether the
/// file-selection pattern, compiled as a regular expression, matches the
/// file name; a pattern that does not compile matches no name.
#[verifier::external_body]
fn parse_file(file_sel: &str, file_name: &str) -> (r: bool)
    ensures
        r == regex_match(file_sel@, file_name@),
{
    match regex::Regex::new(file_sel) {
        Ok(reg) => reg.is_match(file_name),
        Err(_) => false,
    }
}

/// Keeps exactly the file names that the selection pattern matches, in
/// their original order.
pub fn filter_files(files: Vec<String>, file_sel: &str) -> (r: Vec<String>)
    ensures
        r.deep_view() == files.deep_view().filter(|t: Seq<char>| regex_match(file_sel@, t)),
{
    broadcast use vstd::std_specs::vec::group_vec_axioms;

    let ghost pred = |t: Seq<char>| regex_match(file_sel@, t);
    let n = files.len();
    let mut kept: Vec<String> = Vec::new();
    let mut i: usize = 0;
    proof {
        reveal(Seq::filter);
        assert(files.deep_view().subrange(0, 0) =~= Seq::<Seq<char>>::empty());
        assert(kept.deep_view() =~= Seq::<Seq<char>>::empty());
    }
    while i < n
        invariant
            0 <= i <= n,
            n == files@.len(),
            files.deep_view().len() == n,
            kept.deep_view() == files.deep_view().subrange(0, i as int).filter(pred),
            pred == (|t: Seq<char>| regex_match(file_sel@, t)),
        decreases n - i,
    {
        let ghost prefix = files.deep_view().subrange(0, i as int);
        let ghost prefix_next = files.deep_view().subrange(0, i as int + 1);
        proof {
            reveal(Seq::filter);
            assert(prefix_next.drop_last() =~= prefix);
            assert(prefix_next.last() == files.deep_view()[i as int]);
            assert(files.deep_view()[i as int] == files@[i as int]@);
        }
        let file = &files[i];
        if parse_file(file_sel, file.as_str()) {
            let ghost old_kept = kept.deep_view();
            kept.push(file.clone());
            proof {
                assert(kept.deep_view() =~= old_kept.push(files@[i as int]@));
                assert(prefix_next.filter(pred) =~= prefix.filter(pred).push(
                    files@[i as int]@,
                ));
            }
        } else {
            proof {
                assert(prefix_next.filter(pred) =~= prefix.filter(pred));
            }
        }
        i = i + 1;
    }
    proof {
        assert(files.deep_view().subrange(0, n as int) =~= files.deep_view());
    }
    kept
}

} // verus!
