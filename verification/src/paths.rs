//! File-name and path construction: stem extraction and the destination
//! path of a conversion, `<dir>/output/<stem>.wav`.
use vstd::prelude::*;
use vstd::string::*;

verus! {

/// Index of the last `.` that separates a stem from an extension. A dot in
/// first position marks a hidden file rather than an extension, so the
/// result is at least 1, or -1 when the name has no extension at all.
pub open spec fn last_dot(name: Seq<char>) -> int
    decreases name.len(),
{
    if name.len() <= 1 {
        -1
    } else if name.last() == '.' {
        name.len() - 1
    } else {
        last_dot(name.drop_last())
    }
}

/// The file name with its extension removed; a name without an extension
/// is its own stem.
pub open spec fn stem_of(name: Seq<char>) -> Seq<char> {
    if last_dot(name) < 0 {
        name
    } else {
        name.subrange(0, last_dot(name))
    }
}

/// Computes the stem of a file name.
pub fn stem(name: &str) -> (r: String)
    ensures
        r@ == stem_of(name@),
{
    let n = name.unicode_len();
    let mut k = n;
    proof {
        assert(name@.subrange(0, n as int) =~= name@);
    }
    while k > 1
        invariant
            k <= n,
            n == name@.len(),
            last_dot(name@) == last_dot(name@.subrange(0, k as int)),
        decreases k,
    {
        let c = name.get_char(k - 1);
        proof {
            let s = name@.subrange(0, k as int);
            assert(s.len() == k);
            assert(s.last() == name@[k - 1]);
            if name@[k - 1] != '.' {
                assert(s.drop_last() =~= name@.subrange(0, k - 1));
            }
        }
        if c == '.' {
            let r = name.substring_char(0, k - 1).to_owned();
            return r;
        }
        k = k - 1;
    }
    proof {
        assert(name@.subrange(0, k as int).len() <= 1);
    }
    name.to_owned()
}

/// `<dir>/<name>`.
pub open spec fn join_spec(dir: Seq<char>, name: Seq<char>) -> Seq<char> {
    dir + "/"@ + name
}

/// Joins a directory path and a name inside it.
pub fn join_path(dir: &str, name: &str) -> (r: String)
    ensures
        r@ == join_spec(dir@, name@),
{
    let mut r = dir.to_owned();
    r.append("/");
    r.append(name);
    proof {
        assert(r@ =~= join_spec(dir@, name@));
    }
    r
}

/// The destination path of a conversion: the source's stem moved under the
/// input directory's `output` subdirectory, with the extension `wav`.
pub open spec fn dest_path_spec(dir: Seq<char>, name: Seq<char>) -> Seq<char> {
    dir + "/output/"@ + stem_of(name) + ".wav"@
}

/// Builds the destination path `<dir>/output/<stem>.wav` for a file name.
pub fn wav_destination(dir: &str, name: &str) -> (r: String)
    ensures
        r@ == dest_path_spec(dir@, name@),
{
    let mut r = dir.to_owned();
    r.append("/output/");
    let st = stem(name);
    r.append(st.as_str());
    r.append(".wav");
    proof {
        assert(r@ =~= dest_path_spec(dir@, name@));
    }
    r
}

} // verus!
