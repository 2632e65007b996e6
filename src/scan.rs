use vstd::prelude::*;

verus! {

/// Whether a file name ends with `.pdf` (case-sensitive).
pub open spec fn is_pdf_name(name: Seq<char>) -> bool {
    &&& name.len() >= 4
    &&& name.subrange(name.len() - 4, name.len() as int) == seq!['.', 'p', 'd', 'f']
}

/// The names of a directory listing that are PDF files, in listing order.
pub open spec fn pdf_candidates(names: Seq<Seq<char>>) -> Seq<Seq<char>> {
    names.filter(|n: Seq<char>| is_pdf_name(n))
}

/// Tests whether `name` carries the `.pdf` suffix.
pub fn has_pdf_suffix(name: &str) -> (r: bool)
    ensures
        r == is_pdf_name(name@),
{
    let n = name.unicode_len();
    if n < 4 {
        return false;
    }
    let c0 = name.get_char(n - 4);
    let c1 = name.get_char(n - 3);
    let c2 = name.get_char(n - 2);
    let c3 = name.get_char(n - 1);
    let r = c0 == '.' && c1 == 'p' && c2 == 'd' && c3 == 'f';
    proof {
        let tail = name@.subrange(n - 4, n as int);
        if r {
            assert(tail =~= seq!['.', 'p', 'd', 'f']);
        } else {
            assert(tail[0] == c0 && tail[1] == c1 && tail[2] == c2 && tail[3] == c3);
            assert(seq!['.', 'p', 'd', 'f'][0] == '.');
            assert(seq!['.', 'p', 'd', 'f'][1] == 'p');
            assert(seq!['.', 'p', 'd', 'f'][2] == 'd');
            assert(seq!['.', 'p', 'd', 'f'][3] == 'f');
        }
    }
    r
}

/// Keeps the entries of a directory listing that name PDF files, in order.
pub fn select_candidates(names: &Vec<String>) -> (r: Vec<String>)
    ensures
        r.deep_view() == pdf_candidates(names.deep_view()),
{
    let mut out: Vec<String> = Vec::new();
    let mut i: usize = 0;
    while i < names.len()
        invariant
            i <= names.len(),
            out.deep_view() == pdf_candidates(names.deep_view().take(i as int)),
        decreases names.len() - i,
    {
        let ghost before = out.deep_view();
        let keep = has_pdf_suffix(names[i].as_str());
        if keep {
            out.push(names[i].clone());
        }
        proof {
            let all = names.deep_view();
            let next = all.take(i + 1);
            assert(next.drop_last() =~= all.take(i as int));
            assert(next.last() == names[i as int]@);
            reveal(Seq::filter);
            if keep {
                assert(out.deep_view() =~= before.push(names[i as int]@));
            } else {
                assert(out.deep_view() =~= before);
            }
        }
        i += 1;
    }
    proof {
        assert(names.deep_view().take(names.len() as int) =~= names.deep_view());
    }
    out
}

} // verus!
