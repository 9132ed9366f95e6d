//! Conversion jobs: the transcoder argument string, one job per input
//! file, and the deterministic ordering of a directory listing.
use vstd::prelude::*;
use vstd::string::*;
use crate::paths::{dest_path_spec, join_spec, join_path, wav_destination};
use crate::strutil::{lex_le, str_le};

verus! {

/// The raw argument string of one conversion: suppress the banner, pick
/// hardware acceleration automatically, overwrite the destination without
/// prompting, read the source, and write a mono 8000 Hz signed 16-bit file.
pub open spec fn command_spec(source: Seq<char>, dest: Seq<char>) -> Seq<char> {
    "-hide_banner -hwaccel auto -y -i \""@ + source
        + "\" -ac 1 -ar 8000 -sample_fmt s16 \""@ + dest + "\""@
}

/// Builds the argument string for one conversion.
pub fn build_command(source: &str, dest: &str) -> (r: String)
    ensures
        r@ == command_spec(source@, dest@),
{
    let mut r = "-hide_banner -hwaccel auto -y -i \"".to_owned();
    r.append(source);
    r.append("\" -ac 1 -ar 8000 -sample_fmt s16 \"");
    r.append(dest);
    r.append("\"");
    proof {
        assert(r@ =~= command_spec(source@, dest@));
    }
    r
}

/// The argument vector of one conversion, the raw argument string token
/// for token; each path stands as one whole token, so no quoting is
/// needed when spawning with a structured argument list.
pub fn command_args(source: &str, dest: &str) -> (r: Vec<String>)
    ensures
        r@.len() == 13,
        r@[0]@ == "-hide_banner"@,
        r@[1]@ == "-hwaccel"@,
        r@[2]@ == "auto"@,
        r@[3]@ == "-y"@,
        r@[4]@ == "-i"@,
        r@[5]@ == source@,
        r@[6]@ == "-ac"@,
        r@[7]@ == "1"@,
        r@[8]@ == "-ar"@,
        r@[9]@ == "8000"@,
        r@[10]@ == "-sample_fmt"@,
        r@[11]@ == "s16"@,
        r@[12]@ == dest@,
{
    let mut r: Vec<String> = Vec::new();
    r.push("-hide_banner".to_owned());
    r.push("-hwaccel".to_owned());
    r.push("auto".to_owned());
    r.push("-y".to_owned());
    r.push("-i".to_owned());
    r.push(source.to_owned());
    r.push("-ac".to_owned());
    r.push("1".to_owned());
    r.push("-ar".to_owned());
    r.push("8000".to_owned());
    r.push("-sample_fmt".to_owned());
    r.push("s16".to_owned());
    r.push(dest.to_owned());
    r
}

/// One file's conversion task: where it comes from, where its output goes,
/// and the argument string handed to the transcoder.
pub struct ConversionJob {
    /// The file's name within the input directory.
    pub name: String,
    /// The full source path, `<dir>/<name>`.
    pub source: String,
    /// The full destination path, `<dir>/output/<stem>.wav`.
    pub dest: String,
    /// The raw argument string of the invocation.
    pub command: String,
}

/// A job is well formed for an input directory when its paths and its
/// argument string are exactly those the directory and the file name give.
pub open spec fn job_wf(j: ConversionJob, dir: Seq<char>) -> bool {
    &&& j.source@ == join_spec(dir, j.name@)
    &&& j.dest@ == dest_path_spec(dir, j.name@)
    &&& j.command@ == command_spec(j.source@, j.dest@)
}

/// Builds the conversion job of one file.
pub fn build_job(dir: &str, name: &str) -> (j: ConversionJob)
    ensures
        j.name@ == name@,
        job_wf(j, dir@),
{
    let source = join_path(dir, name);
    let dest = wav_destination(dir, name);
    let command = build_command(source.as_str(), dest.as_str());
    ConversionJob { name: name.to_owned(), source, dest, command }
}

/// The views of a sequence of strings.
pub open spec fn views_of(s: Seq<String>) -> Seq<Seq<char>> {
    s.map_values(|x: String| x@)
}

proof fn lemma_insert_to_multiset(s: Seq<Seq<char>>, k: int, x: Seq<char>)
    requires
        0 <= k <= s.len(),
    ensures
        s.insert(k, x).to_multiset() == s.to_multiset().insert(x),
{
    broadcast use vstd::seq_lib::group_to_multiset_ensures;
    broadcast use vstd::multiset::group_multiset_axioms;

    let a = s.subrange(0, k);
    let b = s.subrange(k, s.len() as int);
    s.insert_ensures(k, x);
    assert(s.insert(k, x) =~= a.push(x) + b);
    vstd::seq_lib::lemma_multiset_commutative(a.push(x), b);
    vstd::seq_lib::lemma_multiset_commutative(a, b);
    assert(s =~= a + b);
    assert(s.insert(k, x).to_multiset() =~= s.to_multiset().insert(x));
}

/// Sorts file names into lexicographic scalar-value order; the result is a
/// permutation of the input.
pub fn sort_names(names: Vec<String>) -> (r: Vec<String>)
    ensures
        r@.len() == names@.len(),
        views_of(r@).to_multiset() == views_of(names@).to_multiset(),
        forall|i: int, j: int|
            0 <= i < j < r@.len() ==> lex_le(r@[i]@, r@[j]@),
{
    let mut r: Vec<String> = Vec::new();
    let mut idx: usize = 0;
    proof {
        assert(views_of(names@.subrange(0, 0)) =~= views_of(r@));
    }
    while idx < names.len()
        invariant
            idx <= names@.len(),
            r@.len() == idx,
            views_of(r@).to_multiset() == views_of(names@.subrange(0, idx as int)).to_multiset(),
            forall|i: int, j: int|
                0 <= i < j < r@.len() ==> lex_le(r@[i]@, r@[j]@),
        decreases names@.len() - idx,
    {
        let s = names[idx].clone();
        let mut k: usize = 0;
        loop
            invariant
                k <= r@.len(),
                forall|t: int| 0 <= t < k ==> lex_le(r@[t]@, s@),
            ensures
                k <= r@.len(),
                forall|t: int| 0 <= t < k ==> lex_le(r@[t]@, s@),
                k < r@.len() ==> !lex_le(r@[k as int]@, s@),
            decreases r@.len() - k,
        {
            if k == r.len() {
                break;
            }
            if !str_le(r[k].as_str(), s.as_str()) {
                break;
            }
            k = k + 1;
        }
        let ghost old_r = r@;
        let ghost old_views = views_of(r@);
        r.insert(k, s);
        proof {
            old_r.insert_ensures(k as int, s);
            assert(views_of(r@) =~= old_views.insert(k as int, s@)) by {
                old_views.insert_ensures(k as int, s@);
                assert forall|t: int| 0 <= t < r@.len() implies views_of(r@)[t]
                    == old_views.insert(k as int, s@)[t] by {
                    if t < k {
                        assert(r@[t] == old_r[t]);
                        assert(old_views.insert(k as int, s@)[t] == old_views[t]);
                    } else if t == k {
                        assert(r@[t] == s);
                    } else {
                        assert(r@[t] == old_r[t - 1]);
                        assert(old_views.insert(k as int, s@)[(t - 1) + 1] == old_views[t - 1]);
                    }
                }
            }
            assert(views_of(r@).to_multiset()
                == views_of(names@.subrange(0, idx + 1)).to_multiset()) by {
                lemma_insert_to_multiset(old_views, k as int, s@);
                let prev = views_of(names@.subrange(0, idx as int));
                assert(views_of(names@.subrange(0, idx + 1)) =~= prev.push(names@[idx as int]@));
                prev.to_multiset_ensures();
                assert(prev.push(s@).to_multiset() =~= prev.to_multiset().insert(s@));
            }
            assert forall|i: int, j: int| 0 <= i < j < r@.len() implies lex_le(
                r@[i]@,
                r@[j]@,
            ) by {
                if i < k && j == k {
                    assert(lex_le(old_r[i]@, s@));
                } else if i == k && j > k {
                    assert(k < old_r.len());
                    crate::strutil::lex_le_total(old_r[k as int]@, s@);
                    crate::strutil::lex_le_refl(old_r[k as int]@);
                    if j - 1 > k {
                        assert(lex_le(old_r[k as int]@, old_r[j - 1]@));
                    }
                    crate::strutil::lex_le_trans(s@, old_r[k as int]@, old_r[j - 1]@);
                } else if i < k && j > k {
                    assert(k < old_r.len());
                    crate::strutil::lex_le_total(old_r[k as int]@, s@);
                    crate::strutil::lex_le_refl(old_r[k as int]@);
                    if j - 1 > k {
                        assert(lex_le(old_r[k as int]@, old_r[j - 1]@));
                    }
                    crate::strutil::lex_le_trans(s@, old_r[k as int]@, old_r[j - 1]@);
                    assert(lex_le(old_r[i]@, s@));
                    crate::strutil::lex_le_trans(old_r[i]@, s@, old_r[j - 1]@);
                } else if i > k && j > k {
                    assert(lex_le(old_r[i - 1]@, old_r[j - 1]@));
                } else if i < k && j < k {
                    assert(lex_le(old_r[i]@, old_r[j]@));
                }
            }
        }
        idx = idx + 1;
    }
    proof {
        assert(names@.subrange(0, names@.len() as int) =~= names@);
    }
    r
}

/// The names of a sequence of jobs.
pub open spec fn job_names(jobs: Seq<ConversionJob>) -> Seq<Seq<char>> {
    jobs.map_values(|j: ConversionJob| j.name@)
}

/// Builds one conversion job per file of a directory listing: the jobs
/// carry exactly the listed names, stand in lexicographic name order, and
/// each one's paths and argument string follow from its name alone. An
/// empty listing yields an empty batch.
pub fn build_jobs(dir: &str, names: Vec<String>) -> (jobs: Vec<ConversionJob>)
    ensures
        jobs@.len() == names@.len(),
        job_names(jobs@).to_multiset() == views_of(names@).to_multiset(),
        forall|i: int, j: int|
            0 <= i < j < jobs@.len() ==> lex_le(jobs@[i].name@, jobs@[j].name@),
        forall|i: int| 0 <= i < jobs@.len() ==> job_wf(#[trigger] jobs@[i], dir@),
        names@.len() == 0 ==> jobs@.len() == 0,
{
    let sorted = sort_names(names);
    let mut jobs: Vec<ConversionJob> = Vec::new();
    let mut i: usize = 0;
    while i < sorted.len()
        invariant
            i <= sorted@.len(),
            jobs@.len() == i,
            forall|t: int| 0 <= t < i ==> (#[trigger] jobs@[t]).name@ == sorted@[t]@,
            forall|t: int| 0 <= t < i ==> job_wf(#[trigger] jobs@[t], dir@),
        decreases sorted@.len() - i,
    {
        let j = build_job(dir, sorted[i].as_str());
        jobs.push(j);
        i = i + 1;
    }
    proof {
        assert(job_names(jobs@) =~= views_of(sorted@));
    }
    jobs
}

/// A sorted permutation of a listing is unique: two batches built over the
/// same set of file names process them as the same sequence, so repeating a
/// run repeats the very same jobs.
pub proof fn lemma_sorted_names_unique(x: Seq<Seq<char>>, y: Seq<Seq<char>>)
    requires
        x.to_multiset() == y.to_multiset(),
        forall|i: int, j: int| 0 <= i < j < x.len() ==> lex_le(x[i], x[j]),
        forall|i: int, j: int| 0 <= i < j < y.len() ==> lex_le(y[i], y[j]),
    ensures
        x == y,
{
    let leq = |a: Seq<char>, b: Seq<char>| lex_le(a, b);
    assert(vstd::relations::total_ordering(leq)) by {
        assert(vstd::relations::reflexive(leq)) by {
            assert forall|a: Seq<char>| #[trigger] leq(a, a) by {
                crate::strutil::lex_le_refl(a);
            }
        }
        assert(vstd::relations::antisymmetric(leq)) by {
            assert forall|a: Seq<char>, b: Seq<char>|
                #[trigger] leq(a, b) && #[trigger] leq(b, a) implies a == b by {
                crate::strutil::lex_le_antisym(a, b);
            }
        }
        assert(vstd::relations::transitive(leq)) by {
            assert forall|a: Seq<char>, b: Seq<char>, c: Seq<char>|
                #[trigger] leq(a, b) && #[trigger] leq(b, c) implies leq(a, c) by {
                crate::strutil::lex_le_trans(a, b, c);
            }
        }
        assert(vstd::relations::strongly_connected(leq)) by {
            assert forall|a: Seq<char>, b: Seq<char>|
                #[trigger] leq(a, b) || #[trigger] leq(b, a) by {
                crate::strutil::lex_le_total(a, b);
            }
        }
    }
    assert(vstd::relations::sorted_by(x, leq));
    assert(vstd::relations::sorted_by(y, leq));
    vstd::seq_lib::lemma_sorted_unique(x, y, leq);
}

/// Two well-formed batches over the same set of file names are the same
/// batch: job for job, the same names, paths and argument strings in the
/// same order. With every destination overwritten in place, repeating a
/// run leaves the output directory as the first run did.
pub proof fn lemma_jobs_determined(a: Seq<ConversionJob>, b: Seq<ConversionJob>, dir: Seq<char>)
    requires
        job_names(a).to_multiset() == job_names(b).to_multiset(),
        forall|i: int, j: int| 0 <= i < j < a.len() ==> lex_le(a[i].name@, a[j].name@),
        forall|i: int, j: int| 0 <= i < j < b.len() ==> lex_le(b[i].name@, b[j].name@),
        forall|i: int| 0 <= i < a.len() ==> job_wf(#[trigger] a[i], dir),
        forall|i: int| 0 <= i < b.len() ==> job_wf(#[trigger] b[i], dir),
    ensures
        a.len() == b.len(),
        forall|i: int|
            0 <= i < a.len() ==> (#[trigger] a[i]).name@ == b[i].name@
                && a[i].source@ == b[i].source@ && a[i].dest@ == b[i].dest@
                && a[i].command@ == b[i].command@,
{
    assert forall|i: int, j: int| 0 <= i < j < job_names(a).len() implies lex_le(
        job_names(a)[i],
        job_names(a)[j],
    ) by {
        assert(job_names(a)[i] == a[i].name@);
        assert(job_names(a)[j] == a[j].name@);
    }
    assert forall|i: int, j: int| 0 <= i < j < job_names(b).len() implies lex_le(
        job_names(b)[i],
        job_names(b)[j],
    ) by {
        assert(job_names(b)[i] == b[i].name@);
        assert(job_names(b)[j] == b[j].name@);
    }
    lemma_sorted_names_unique(job_names(a), job_names(b));
    assert(a.len() == job_names(a).len());
    assert(b.len() == job_names(b).len());
    assert forall|i: int|
        0 <= i < a.len() implies (#[trigger] a[i]).name@ == b[i].name@
            && a[i].source@ == b[i].source@ && a[i].dest@ == b[i].dest@
            && a[i].command@ == b[i].command@ by {
        assert(job_names(a)[i] == a[i].name@);
        assert(job_names(b)[i] == b[i].name@);
        assert(job_wf(a[i], dir));
        assert(job_wf(b[i], dir));
    }
}

/// Every argument string carries the stand-alone overwrite flag, so a
/// repeated run replaces prior outputs instead of failing on them.
pub proof fn lemma_command_forces_overwrite(source: Seq<char>, dest: Seq<char>)
    ensures
        crate::strutil::contains_seq(command_spec(source, dest), " -y "@),
{
    let cmd = command_spec(source, dest);
    let prefix = "-hide_banner -hwaccel auto -y -i \""@;
    reveal_strlit("-hide_banner -hwaccel auto -y -i \"");
    reveal_strlit(" -y ");
    assert(prefix.len() == 34);
    let p1 = prefix + source;
    let p2 = p1 + "\" -ac 1 -ar 8000 -sample_fmt s16 \""@;
    let p3 = p2 + dest;
    assert(cmd == p3 + "\""@);
    assert(cmd.subrange(26, 30) =~= " -y "@) by {
        assert forall|t: int| 0 <= t < 4 implies cmd.subrange(26, 30)[t] == " -y "@[t] by {
            assert(p1[26 + t] == prefix[26 + t]);
            assert(p2[26 + t] == p1[26 + t]);
            assert(p3[26 + t] == p2[26 + t]);
            assert(cmd[26 + t] == p3[26 + t]);
        }
    }
    assert(crate::strutil::matches_at(cmd, " -y "@, 26));
}

} // verus!
