//! The job parser: turns one line of a copy list or an upload list into a
//! structured transfer job, validating field counts and metadata syntax.
//!
//! A line is split on commas into fields. A copy-list line needs at least
//! three fields (`file, source_prefix, destination_prefix[, metadata]`); an
//! upload-list line needs at least one (`local_path[, destination_prefix[,
//! metadata]]`). Metadata is a space-separated list of `key=value` pairs;
//! a pair without `=` is skipped and reported, never fatal. A blank line is
//! silently dropped; a line below the minimum field count is rejected and
//! counted as a failed job without aborting the batch.

use vstd::prelude::*;

use crate::text::blank;
use crate::text::find_char;
use crate::text::find_in;
use crate::text::is_blank;
use crate::text::last_segment;
use crate::text::last_path_segment;
use crate::text::lemma_find_char;
use crate::text::split_char;
use crate::text::split_on;
use crate::text::strip_slashes;
use crate::text::trim_str;
use crate::text::trimmed;

verus! {

/// A metadata token is well formed when it holds at least one `=`.
pub open spec fn has_eq(t: Seq<char>) -> bool {
    find_char(t, '=') < t.len()
}

/// The key of a metadata token: everything before the first `=`.
pub open spec fn key_of(t: Seq<char>) -> Seq<char> {
    t.take(find_char(t, '='))
}

/// The value of a metadata token: everything after the first `=` (which may
/// itself contain `=`).
pub open spec fn value_of(t: Seq<char>) -> Seq<char> {
    t.skip(find_char(t, '=') + 1)
}

/// The well-formed `key=value` pairs among the given tokens, in order.
/// Empty tokens (from repeated spaces) are ignored.
pub open spec fn meta_pairs(tokens: Seq<Seq<char>>) -> Seq<(Seq<char>, Seq<char>)>
    decreases tokens.len(),
{
    if tokens.len() == 0 {
        Seq::empty()
    } else {
        let rest = meta_pairs(tokens.drop_first());
        if tokens[0].len() == 0 {
            rest
        } else if has_eq(tokens[0]) {
            seq![(key_of(tokens[0]), value_of(tokens[0]))] + rest
        } else {
            rest
        }
    }
}

/// The malformed tokens among the given tokens, in order: the non-empty
/// ones without `=`.
pub open spec fn meta_bad(tokens: Seq<Seq<char>>) -> Seq<Seq<char>>
    decreases tokens.len(),
{
    if tokens.len() == 0 {
        Seq::empty()
    } else {
        let rest = meta_bad(tokens.drop_first());
        if tokens[0].len() == 0 || has_eq(tokens[0]) {
            rest
        } else {
            seq![tokens[0]] + rest
        }
    }
}

/// Parses a space-separated metadata string. Returns the well-formed
/// `key=value` pairs and, separately, the malformed tokens that were
/// skipped, each exactly as `meta_pairs` and `meta_bad` describe on the
/// space-split of the input.
pub fn parse_metadata(s: &str) -> (r: (Vec<(String, String)>, Vec<String>))
    ensures
        r.0.deep_view() == meta_pairs(split_on(s@, ' ')),
        r.1.deep_view() == meta_bad(split_on(s@, ' ')),
{
    let tokens = split_char(s, ' ');
    let ghost toks = split_on(s@, ' ');
    let mut pairs: Vec<(String, String)> = Vec::new();
    let mut bad: Vec<String> = Vec::new();
    let mut k: usize = 0;
    proof {
        assert(toks.skip(0) =~= toks);
        assert(pairs.deep_view() =~= Seq::<(Seq<char>, Seq<char>)>::empty());
        assert(bad.deep_view() =~= Seq::<Seq<char>>::empty());
        assert(meta_pairs(toks) =~= pairs.deep_view() + meta_pairs(toks.skip(0)));
        assert(meta_bad(toks) =~= bad.deep_view() + meta_bad(toks.skip(0)));
    }
    while k < tokens.len()
        invariant
            0 <= k <= tokens.len(),
            tokens.deep_view() == toks,
            meta_pairs(toks) == pairs.deep_view() + meta_pairs(toks.skip(k as int)),
            meta_bad(toks) == bad.deep_view() + meta_bad(toks.skip(k as int)),
        decreases tokens.len() - k,
    {
        let token = &tokens[k];
        proof {
            assert(toks.skip(k as int).drop_first() =~= toks.skip(k + 1));
            assert(toks.skip(k as int)[0] == token@);
        }
        if token.as_str().unicode_len() == 0 {
            // an empty token between repeated separators: ignored
        } else {
            match find_in(token.as_str(), '=') {
                Some(i) => {
                    proof {
                        lemma_find_char(token@, '=');
                    }
                    let key = String::from_str(token.as_str().substring_char(0, i));
                    let n = token.as_str().unicode_len();
                    let value = String::from_str(token.as_str().substring_char(i + 1, n));
                    let ghost old_pairs = pairs.deep_view();
                    proof {
                        assert(key@ =~= key_of(token@));
                        assert(value@ =~= value_of(token@));
                    }
                    pairs.push((key, value));
                    proof {
                        assert(pairs.deep_view() =~= old_pairs.push(
                            (key_of(token@), value_of(token@)),
                        ));
                        assert(old_pairs + (seq![(key_of(token@), value_of(token@))] + meta_pairs(
                            toks.skip(k + 1),
                        )) =~= pairs.deep_view() + meta_pairs(toks.skip(k + 1)));
                    }
                },
                None => {
                    let ghost old_bad = bad.deep_view();
                    bad.push(token.clone());
                    proof {
                        assert(bad.deep_view() =~= old_bad.push(token@));
                        assert(old_bad + (seq![token@] + meta_bad(toks.skip(k + 1)))
                            =~= bad.deep_view() + meta_bad(toks.skip(k + 1)));
                    }
                },
            }
        }
        k = k + 1;
    }
    proof {
        assert(toks.skip(k as int) =~= Seq::<Seq<char>>::empty());
    }
    (pairs, bad)
}

/// Parses one `key=value` argument: the key is everything before the first
/// `=`, the value everything after it. A string without `=` is rejected
/// with a message naming the offending input.
pub fn parse_key_val(s: &str) -> (r: Result<(String, String), String>)
    ensures
        match r {
            Ok(kv) => has_eq(s@) && kv.0@ == key_of(s@) && kv.1@ == value_of(s@),
            Err(msg) => !has_eq(s@) && msg@ == "invalid KEY=value: no `=` found in `"@ + s@
                + "`"@,
        },
{
    proof {
        lemma_find_char(s@, '=');
    }
    match find_in(s, '=') {
        Some(i) => {
            let key = String::from_str(s.substring_char(0, i));
            let n = s.unicode_len();
            let value = String::from_str(s.substring_char(i + 1, n));
            proof {
                assert(key@ =~= key_of(s@));
                assert(value@ =~= value_of(s@));
            }
            Ok((key, value))
        },
        None => {
            let msg = String::from_str("invalid KEY=value: no `=` found in `").concat(s).concat(
                "`",
            );
            Err(msg)
        },
    }
}

/// How a destination or source prefix is joined to a file name: an empty
/// prefix contributes nothing (no separator), a prefix already ending in
/// `/` is used as is, and any other prefix gets a `/` inserted before the
/// name.
pub open spec fn join_key_spec(prefix: Seq<char>, name: Seq<char>) -> Seq<char> {
    if prefix.len() == 0 {
        name
    } else if prefix[prefix.len() - 1] == '/' {
        prefix + name
    } else {
        prefix + seq!['/'] + name
    }
}

/// Joins a prefix to a file name as `join_key_spec` describes.
pub fn join_key(prefix: &str, name: &str) -> (r: String)
    ensures
        r@ == join_key_spec(prefix@, name@),
{
    let n = prefix.unicode_len();
    if n == 0 {
        String::from_str(name)
    } else if prefix.get_char(n - 1) == '/' {
        String::from_str(prefix).concat(name)
    } else {
        let r = String::from_str(prefix).concat("/").concat(name);
        proof {
            reveal_strlit("/");
            assert("/"@ =~= seq!['/']);
        }
        r
    }
}

/// A bucket and a prefix within it, joined with a single `/`.
pub open spec fn bucket_prefix_spec(bucket: Seq<char>, prefix: Seq<char>) -> Seq<char> {
    bucket + seq!['/'] + prefix
}

/// Joins a bucket name and an in-bucket prefix as `bucket_prefix_spec`
/// describes.
pub fn bucket_and_prefix(bucket: &str, prefix: &str) -> (r: String)
    ensures
        r@ == bucket_prefix_spec(bucket@, prefix@),
{
    let r = String::from_str(bucket).concat("/").concat(prefix);
    proof {
        reveal_strlit("/");
        assert("/"@ =~= seq!['/']);
    }
    r
}

/// The file name a local path contributes to its destination key: the final
/// `/`-separated segment once trailing slashes are stripped. A path with
/// nothing left after stripping, or whose final segment is `.` or `..`,
/// has no extractable file name.
pub open spec fn file_name_spec(path: Seq<char>) -> Option<Seq<char>> {
    let t = strip_slashes(path);
    if t.len() == 0 {
        None
    } else {
        let b = last_segment(t);
        if b == seq!['.'] || b == seq!['.', '.'] {
            None
        } else {
            Some(b)
        }
    }
}

/// Extracts the file name of a local path, as `file_name_spec` describes.
pub fn file_name_of(path: &str) -> (r: Option<String>)
    ensures
        match r {
            Some(name) => file_name_spec(path@) == Some(name@),
            None => file_name_spec(path@) is None,
        },
{
    match last_path_segment(path) {
        None => None,
        Some(seg) => {
            let n = seg.as_str().unicode_len();
            if n == 1 && seg.as_str().get_char(0) == '.' {
                proof {
                    assert(seg@ =~= seq!['.']);
                }
                None
            } else if n == 2 && seg.as_str().get_char(0) == '.' && seg.as_str().get_char(1)
                == '.' {
                proof {
                    assert(seg@ =~= seq!['.', '.']);
                }
                None
            } else {
                proof {
                    if seg@ == seq!['.'] {
                        assert(seg@.len() == 1 && seg@[0] == '.');
                    }
                    if seg@ == seq!['.', '.'] {
                        assert(seg@.len() == 2 && seg@[0] == '.' && seg@[1] == '.');
                    }
                }
                Some(seg)
            }
        },
    }
}

/// One unit of work: a single object copy or a single file upload, with its
/// optional metadata. Immutable once constructed; consumed exactly once by
/// the batch executor.
#[derive(Clone, Debug)]
pub enum TransferJob {
    Copy { source_key: String, destination_key: String, metadata: Vec<(String, String)> },
    Upload { local_path: String, destination_key: String, metadata: Vec<(String, String)> },
}

/// The mathematical value of a `TransferJob`: the same shape over character
/// sequences.
pub enum JobModel {
    Copy {
        source_key: Seq<char>,
        destination_key: Seq<char>,
        metadata: Seq<(Seq<char>, Seq<char>)>,
    },
    Upload {
        local_path: Seq<char>,
        destination_key: Seq<char>,
        metadata: Seq<(Seq<char>, Seq<char>)>,
    },
}

impl View for TransferJob {
    type V = JobModel;

    open spec fn view(&self) -> JobModel {
        match self {
            TransferJob::Copy { source_key, destination_key, metadata } => JobModel::Copy {
                source_key: source_key@,
                destination_key: destination_key@,
                metadata: metadata.deep_view(),
            },
            TransferJob::Upload { local_path, destination_key, metadata } => JobModel::Upload {
                local_path: local_path@,
                destination_key: destination_key@,
                metadata: metadata.deep_view(),
            },
        }
    }
}

/// What one input line became: nothing (blank), a rejected line (counted as
/// a failed job; the payload is the line itself, for the report), or a job
/// together with the malformed metadata tokens that were skipped.
#[derive(Debug)]
pub enum ParsedLine {
    Blank,
    Invalid(String),
    Job(TransferJob, Vec<String>),
}

/// The mathematical value of a `ParsedLine`.
pub enum LineModel {
    Blank,
    Invalid,
    Job(JobModel, Seq<Seq<char>>),
}

impl View for ParsedLine {
    type V = LineModel;

    open spec fn view(&self) -> LineModel {
        match self {
            ParsedLine::Blank => LineModel::Blank,
            ParsedLine::Invalid(_) => LineModel::Invalid,
            ParsedLine::Job(job, bad) => LineModel::Job(job@, bad.deep_view()),
        }
    }
}

/// What one copy-list line means, given the source bucket and the metadata
/// pairs configured for the whole batch: blank lines are dropped; a line
/// with fewer than 3 comma-separated fields is rejected; otherwise field 0
/// is the file name, field 1 the source prefix inside the bucket, field 2
/// the destination prefix, and field 3 (only when the line has exactly 4
/// fields) extra metadata appended to the configured pairs.
pub open spec fn copy_line_model(
    line: Seq<char>,
    bucket: Seq<char>,
    base: Seq<(Seq<char>, Seq<char>)>,
) -> LineModel {
    if blank(line) {
        LineModel::Blank
    } else {
        let fields = split_on(line, ',');
        if fields.len() < 3 {
            LineModel::Invalid
        } else {
            let file = fields[0];
            let meta_src = if fields.len() == 4 {
                trimmed(fields[3])
            } else {
                Seq::<char>::empty()
            };
            let toks = split_on(meta_src, ' ');
            LineModel::Job(
                JobModel::Copy {
                    source_key: join_key_spec(bucket_prefix_spec(bucket, fields[1]), file),
                    destination_key: join_key_spec(fields[2], file),
                    metadata: base + meta_pairs(toks),
                },
                meta_bad(toks),
            )
        }
    }
}

/// What one upload-list line means, given the destination prefix configured
/// for the whole batch: blank lines are dropped; field 0 (trimmed) is the
/// local path, field 1 (when present) overrides the configured destination
/// prefix, and field 2 (when present) is the line's metadata. A path with
/// no extractable file name is rejected.
pub open spec fn upload_line_model(line: Seq<char>, default_prefix: Seq<char>) -> LineModel {
    if blank(line) {
        LineModel::Blank
    } else {
        let fields = split_on(line, ',');
        let path = trimmed(fields[0]);
        let prefix = if fields.len() >= 2 {
            fields[1]
        } else {
            default_prefix
        };
        let meta_src = if fields.len() >= 3 {
            trimmed(fields[2])
        } else {
            Seq::<char>::empty()
        };
        let toks = split_on(meta_src, ' ');
        match file_name_spec(path) {
            None => LineModel::Invalid,
            Some(name) => LineModel::Job(
                JobModel::Upload {
                    local_path: path,
                    destination_key: join_key_spec(prefix, name),
                    metadata: meta_pairs(toks),
                },
                meta_bad(toks),
            ),
        }
    }
}

/// An absent metadata field yields no pairs and no skipped tokens.
proof fn lemma_meta_empty()
    ensures
        meta_pairs(split_on(Seq::<char>::empty(), ' ')) == Seq::<(Seq<char>, Seq<char>)>::empty(),
        meta_bad(split_on(Seq::<char>::empty(), ' ')) == Seq::<Seq<char>>::empty(),
{
    let toks = split_on(Seq::<char>::empty(), ' ');
    assert(toks =~= seq![Seq::<char>::empty()]);
    assert(toks.drop_first() =~= Seq::<Seq<char>>::empty());
    assert(meta_pairs(toks.drop_first()) == Seq::<(Seq<char>, Seq<char>)>::empty());
    assert(meta_bad(toks.drop_first()) == Seq::<Seq<char>>::empty());
    assert(meta_pairs(toks) =~= Seq::<(Seq<char>, Seq<char>)>::empty());
    assert(meta_bad(toks) =~= Seq::<Seq<char>>::empty());
}

/// Copies a list of metadata pairs.
fn clone_pairs(src: &Vec<(String, String)>) -> (r: Vec<(String, String)>)
    ensures
        r.deep_view() == src.deep_view(),
{
    let mut r: Vec<(String, String)> = Vec::new();
    let mut i: usize = 0;
    while i < src.len()
        invariant
            0 <= i <= src.len(),
            r.deep_view() == src.deep_view().take(i as int),
        decreases src.len() - i,
    {
        let p = &src[i];
        let ghost old_r = r.deep_view();
        r.push((p.0.clone(), p.1.clone()));
        proof {
            assert(r.deep_view() =~= old_r.push(src.deep_view()[i as int]));
            assert(r.deep_view() =~= src.deep_view().take(i + 1));
        }
        i = i + 1;
    }
    proof {
        assert(src.deep_view().take(src.len() as int) =~= src.deep_view());
    }
    r
}

/// Parses one copy-list line, as `copy_line_model` describes. A rejected
/// line is returned as `Invalid` carrying the line itself.
pub fn parse_copy_line(line: &str, source_bucket: &str, base_metadata: &Vec<(String, String)>) -> (r:
    ParsedLine)
    ensures
        r@ == copy_line_model(line@, source_bucket@, base_metadata.deep_view()),
        r matches ParsedLine::Invalid(msg) ==> msg@ == line@,
{
    if is_blank(line) {
        return ParsedLine::Blank;
    }
    let fields = split_char(line, ',');
    if fields.len() < 3 {
        return ParsedLine::Invalid(String::from_str(line));
    }
    let file = fields[0].as_str();
    let source_key = join_key(bucket_and_prefix(source_bucket, fields[1].as_str()).as_str(), file);
    let destination_key = join_key(fields[2].as_str(), file);
    let mut metadata = clone_pairs(base_metadata);
    let ghost base = base_metadata.deep_view();
    if fields.len() == 4 {
        let meta_src = trim_str(fields[3].as_str());
        let (mut extra, bad) = parse_metadata(meta_src.as_str());
        let ghost extra_view = extra.deep_view();
        metadata.append(&mut extra);
        proof {
            assert(metadata.deep_view() =~= base + extra_view);
        }
        ParsedLine::Job(TransferJob::Copy { source_key, destination_key, metadata }, bad)
    } else {
        proof {
            lemma_meta_empty();
            assert(metadata.deep_view() =~= base + meta_pairs(split_on(Seq::<char>::empty(), ' ')));
        }
        let bad: Vec<String> = Vec::new();
        proof {
            assert(bad.deep_view() =~= Seq::<Seq<char>>::empty());
        }
        ParsedLine::Job(TransferJob::Copy { source_key, destination_key, metadata }, bad)
    }
}

/// Parses one upload-list line, as `upload_line_model` describes. A
/// rejected line is returned as `Invalid` carrying the line itself.
pub fn parse_upload_line(line: &str, default_prefix: &str) -> (r: ParsedLine)
    ensures
        r@ == upload_line_model(line@, default_prefix@),
        r matches ParsedLine::Invalid(msg) ==> msg@ == line@,
{
    if is_blank(line) {
        return ParsedLine::Blank;
    }
    let fields = split_char(line, ',');
    proof {
        crate::text::lemma_split_on_len(line@, ',');
    }
    let path = trim_str(fields[0].as_str());
    match file_name_of(path.as_str()) {
        None => ParsedLine::Invalid(String::from_str(line)),
        Some(name) => {
            let prefix: &str = if fields.len() >= 2 {
                fields[1].as_str()
            } else {
                default_prefix
            };
            let destination_key = join_key(prefix, name.as_str());
            let (metadata, bad) = if fields.len() >= 3 {
                let meta_src = trim_str(fields[2].as_str());
                parse_metadata(meta_src.as_str())
            } else {
                proof {
                    lemma_meta_empty();
                }
                (Vec::new(), Vec::new())
            };
            proof {
                if fields.len() < 3 {
                    assert(metadata.deep_view() =~= Seq::<(Seq<char>, Seq<char>)>::empty());
                    assert(bad.deep_view() =~= Seq::<Seq<char>>::empty());
                }
            }
            ParsedLine::Job(
                TransferJob::Upload { local_path: path, destination_key, metadata },
                bad,
            )
        },
    }
}

/// The jobs that a copy list produces, in line order.
pub open spec fn copy_plan_jobs(
    lines: Seq<Seq<char>>,
    bucket: Seq<char>,
    base: Seq<(Seq<char>, Seq<char>)>,
) -> Seq<JobModel>
    decreases lines.len(),
{
    if lines.len() == 0 {
        Seq::empty()
    } else {
        let rest = copy_plan_jobs(lines.drop_first(), bucket, base);
        match copy_line_model(lines[0], bucket, base) {
            LineModel::Job(j, _) => seq![j] + rest,
            _ => rest,
        }
    }
}

/// The rejected lines of a copy list, in order; each is counted as a
/// failed job.
pub open spec fn copy_plan_rejected(
    lines: Seq<Seq<char>>,
    bucket: Seq<char>,
    base: Seq<(Seq<char>, Seq<char>)>,
) -> Seq<Seq<char>>
    decreases lines.len(),
{
    if lines.len() == 0 {
        Seq::empty()
    } else {
        let rest = copy_plan_rejected(lines.drop_first(), bucket, base);
        match copy_line_model(lines[0], bucket, base) {
            LineModel::Invalid => seq![lines[0]] + rest,
            _ => rest,
        }
    }
}

/// The malformed metadata tokens a copy list skips, in order.
pub open spec fn copy_plan_skipped(
    lines: Seq<Seq<char>>,
    bucket: Seq<char>,
    base: Seq<(Seq<char>, Seq<char>)>,
) -> Seq<Seq<char>>
    decreases lines.len(),
{
    if lines.len() == 0 {
        Seq::empty()
    } else {
        let rest = copy_plan_skipped(lines.drop_first(), bucket, base);
        match copy_line_model(lines[0], bucket, base) {
            LineModel::Job(_, bad) => bad + rest,
            _ => rest,
        }
    }
}

/// The jobs that an upload list produces, in line order.
pub open spec fn upload_plan_jobs(lines: Seq<Seq<char>>, default_prefix: Seq<char>) -> Seq<
    JobModel,
>
    decreases lines.len(),
{
    if lines.len() == 0 {
        Seq::empty()
    } else {
        let rest = upload_plan_jobs(lines.drop_first(), default_prefix);
        match upload_line_model(lines[0], default_prefix) {
            LineModel::Job(j, _) => seq![j] + rest,
            _ => rest,
        }
    }
}

/// The rejected lines of an upload list, in order; each is counted as a
/// failed job.
pub open spec fn upload_plan_rejected(lines: Seq<Seq<char>>, default_prefix: Seq<char>) -> Seq<
    Seq<char>,
>
    decreases lines.len(),
{
    if lines.len() == 0 {
        Seq::empty()
    } else {
        let rest = upload_plan_rejected(lines.drop_first(), default_prefix);
        match upload_line_model(lines[0], default_prefix) {
            LineModel::Invalid => seq![lines[0]] + rest,
            _ => rest,
        }
    }
}

/// The malformed metadata tokens an upload list skips, in order.
pub open spec fn upload_plan_skipped(lines: Seq<Seq<char>>, default_prefix: Seq<char>) -> Seq<
    Seq<char>,
>
    decreases lines.len(),
{
    if lines.len() == 0 {
        Seq::empty()
    } else {
        let rest = upload_plan_skipped(lines.drop_first(), default_prefix);
        match upload_line_model(lines[0], default_prefix) {
            LineModel::Job(_, bad) => bad + rest,
            _ => rest,
        }
    }
}

/// How many of the lines are blank.
pub open spec fn blank_count(lines: Seq<Seq<char>>) -> nat
    decreases lines.len(),
{
    if lines.len() == 0 {
        0
    } else {
        (if blank(lines[0]) {
            1nat
        } else {
            0
        }) + blank_count(lines.drop_first())
    }
}

/// Every copy-list line is accounted for exactly once: it is blank, or it
/// is rejected (and counted as a failed job), or it becomes a job. A bad
/// line never takes the rest of the batch with it.
pub proof fn lemma_copy_plan_accounts(
    lines: Seq<Seq<char>>,
    bucket: Seq<char>,
    base: Seq<(Seq<char>, Seq<char>)>,
)
    ensures
        copy_plan_jobs(lines, bucket, base).len() + copy_plan_rejected(lines, bucket, base).len()
            + blank_count(lines) == lines.len(),
    decreases lines.len(),
{
    if lines.len() > 0 {
        lemma_copy_plan_accounts(lines.drop_first(), bucket, base);
    }
}

/// Every upload-list line is accounted for exactly once: it is blank, or
/// it is rejected (and counted as a failed job), or it becomes a job. A
/// bad line never takes the rest of the batch with it.
pub proof fn lemma_upload_plan_accounts(lines: Seq<Seq<char>>, default_prefix: Seq<char>)
    ensures
        upload_plan_jobs(lines, default_prefix).len() + upload_plan_rejected(
            lines,
            default_prefix,
        ).len() + blank_count(lines) == lines.len(),
    decreases lines.len(),
{
    if lines.len() > 0 {
        lemma_upload_plan_accounts(lines.drop_first(), default_prefix);
    }
}

/// What planning a whole list produced: the jobs to execute, the rejected
/// lines (each to be counted as a failed job), and the malformed metadata
/// tokens skipped with a warning.
pub struct BatchPlan {
    pub jobs: Vec<TransferJob>,
    pub rejected: Vec<String>,
    pub skipped_metadata: Vec<String>,
}

/// Turns the lines of a copy list into transfer jobs, as `copy_plan_jobs`,
/// `copy_plan_rejected` and `copy_plan_skipped` describe.
pub fn plan_copy_jobs(
    lines: &Vec<String>,
    source_bucket: &str,
    base_metadata: &Vec<(String, String)>,
) -> (r: BatchPlan)
    ensures
        r.jobs@.map_values(|j: TransferJob| j@) == copy_plan_jobs(
            lines.deep_view(),
            source_bucket@,
            base_metadata.deep_view(),
        ),
        r.rejected.deep_view() == copy_plan_rejected(
            lines.deep_view(),
            source_bucket@,
            base_metadata.deep_view(),
        ),
        r.skipped_metadata.deep_view() == copy_plan_skipped(
            lines.deep_view(),
            source_bucket@,
            base_metadata.deep_view(),
        ),
{
    let ghost ls = lines.deep_view();
    let ghost bkt = source_bucket@;
    let ghost base = base_metadata.deep_view();
    let mut jobs: Vec<TransferJob> = Vec::new();
    let mut rejected: Vec<String> = Vec::new();
    let mut skipped: Vec<String> = Vec::new();
    let mut k: usize = 0;
    proof {
        assert(ls.skip(0) =~= ls);
        assert(jobs@.map_values(|j: TransferJob| j@) =~= Seq::<JobModel>::empty());
        assert(rejected.deep_view() =~= Seq::<Seq<char>>::empty());
        assert(skipped.deep_view() =~= Seq::<Seq<char>>::empty());
        assert(copy_plan_jobs(ls, bkt, base) =~= jobs@.map_values(|j: TransferJob| j@)
            + copy_plan_jobs(ls.skip(0), bkt, base));
        assert(copy_plan_rejected(ls, bkt, base) =~= rejected.deep_view() + copy_plan_rejected(
            ls.skip(0),
            bkt,
            base,
        ));
        assert(copy_plan_skipped(ls, bkt, base) =~= skipped.deep_view() + copy_plan_skipped(
            ls.skip(0),
            bkt,
            base,
        ));
    }
    while k < lines.len()
        invariant
            0 <= k <= lines.len(),
            lines.deep_view() == ls,
            source_bucket@ == bkt,
            base_metadata.deep_view() == base,
            copy_plan_jobs(ls, bkt, base) == jobs@.map_values(|j: TransferJob| j@)
                + copy_plan_jobs(ls.skip(k as int), bkt, base),
            copy_plan_rejected(ls, bkt, base) == rejected.deep_view() + copy_plan_rejected(
                ls.skip(k as int),
                bkt,
                base,
            ),
            copy_plan_skipped(ls, bkt, base) == skipped.deep_view() + copy_plan_skipped(
                ls.skip(k as int),
                bkt,
                base,
            ),
        decreases lines.len() - k,
    {
        proof {
            assert(ls.skip(k as int).drop_first() =~= ls.skip(k + 1));
            assert(ls.skip(k as int)[0] == lines[k as int]@);
        }
        match parse_copy_line(lines[k].as_str(), source_bucket, base_metadata) {
            ParsedLine::Blank => {},
            ParsedLine::Invalid(msg) => {
                let ghost old_rejected = rejected.deep_view();
                rejected.push(msg);
                proof {
                    assert(rejected.deep_view() =~= old_rejected.push(ls[k as int]));
                    assert(old_rejected + (seq![ls[k as int]] + copy_plan_rejected(
                        ls.skip(k + 1),
                        bkt,
                        base,
                    )) =~= rejected.deep_view() + copy_plan_rejected(ls.skip(k + 1), bkt, base));
                }
            },
            ParsedLine::Job(job, mut bad) => {
                let ghost jv = job@;
                let ghost old_jobs = jobs@.map_values(|j: TransferJob| j@);
                let ghost old_skipped = skipped.deep_view();
                let ghost bad_view = bad.deep_view();
                jobs.push(job);
                skipped.append(&mut bad);
                proof {
                    assert(jobs@.map_values(|j: TransferJob| j@) =~= old_jobs.push(jv));
                    assert(old_jobs + (seq![jv] + copy_plan_jobs(ls.skip(k + 1), bkt, base))
                        =~= jobs@.map_values(|j: TransferJob| j@) + copy_plan_jobs(
                        ls.skip(k + 1),
                        bkt,
                        base,
                    ));
                    assert(skipped.deep_view() =~= old_skipped + bad_view);
                    assert(old_skipped + (bad_view + copy_plan_skipped(ls.skip(k + 1), bkt, base))
                        =~= skipped.deep_view() + copy_plan_skipped(ls.skip(k + 1), bkt, base));
                }
            },
        }
        k = k + 1;
    }
    proof {
        assert(ls.skip(k as int) =~= Seq::<Seq<char>>::empty());
        assert(copy_plan_jobs(ls, bkt, base) =~= jobs@.map_values(|j: TransferJob| j@));
        assert(copy_plan_rejected(ls, bkt, base) =~= rejected.deep_view());
        assert(copy_plan_skipped(ls, bkt, base) =~= skipped.deep_view());
    }
    BatchPlan { jobs, rejected, skipped_metadata: skipped }
}

/// Turns the lines of an upload list into transfer jobs, as
/// `upload_plan_jobs`, `upload_plan_rejected` and `upload_plan_skipped`
/// describe.
pub fn plan_upload_jobs(lines: &Vec<String>, default_prefix: &str) -> (r: BatchPlan)
    ensures
        r.jobs@.map_values(|j: TransferJob| j@) == upload_plan_jobs(
            lines.deep_view(),
            default_prefix@,
        ),
        r.rejected.deep_view() == upload_plan_rejected(lines.deep_view(), default_prefix@),
        r.skipped_metadata.deep_view() == upload_plan_skipped(lines.deep_view(), default_prefix@),
{
    let ghost ls = lines.deep_view();
    let ghost pfx = default_prefix@;
    let mut jobs: Vec<TransferJob> = Vec::new();
    let mut rejected: Vec<String> = Vec::new();
    let mut skipped: Vec<String> = Vec::new();
    let mut k: usize = 0;
    proof {
        assert(ls.skip(0) =~= ls);
        assert(jobs@.map_values(|j: TransferJob| j@) =~= Seq::<JobModel>::empty());
        assert(rejected.deep_view() =~= Seq::<Seq<char>>::empty());
        assert(skipped.deep_view() =~= Seq::<Seq<char>>::empty());
        assert(upload_plan_jobs(ls, pfx) =~= jobs@.map_values(|j: TransferJob| j@)
            + upload_plan_jobs(ls.skip(0), pfx));
        assert(upload_plan_rejected(ls, pfx) =~= rejected.deep_view() + upload_plan_rejected(
            ls.skip(0),
            pfx,
        ));
        assert(upload_plan_skipped(ls, pfx) =~= skipped.deep_view() + upload_plan_skipped(
            ls.skip(0),
            pfx,
        ));
    }
    while k < lines.len()
        invariant
            0 <= k <= lines.len(),
            lines.deep_view() == ls,
            default_prefix@ == pfx,
            upload_plan_jobs(ls, pfx) == jobs@.map_values(|j: TransferJob| j@)
                + upload_plan_jobs(ls.skip(k as int), pfx),
            upload_plan_rejected(ls, pfx) == rejected.deep_view() + upload_plan_rejected(
                ls.skip(k as int),
                pfx,
            ),
            upload_plan_skipped(ls, pfx) == skipped.deep_view() + upload_plan_skipped(
                ls.skip(k as int),
                pfx,
            ),
        decreases lines.len() - k,
    {
        proof {
            assert(ls.skip(k as int).drop_first() =~= ls.skip(k + 1));
            assert(ls.skip(k as int)[0] == lines[k as int]@);
        }
        match parse_upload_line(lines[k].as_str(), default_prefix) {
            ParsedLine::Blank => {},
            ParsedLine::Invalid(msg) => {
                let ghost old_rejected = rejected.deep_view();
                rejected.push(msg);
                proof {
                    assert(rejected.deep_view() =~= old_rejected.push(ls[k as int]));
                    assert(old_rejected + (seq![ls[k as int]] + upload_plan_rejected(
                        ls.skip(k + 1),
                        pfx,
                    )) =~= rejected.deep_view() + upload_plan_rejected(ls.skip(k + 1), pfx));
                }
            },
            ParsedLine::Job(job, mut bad) => {
                let ghost jv = job@;
                let ghost old_jobs = jobs@.map_values(|j: TransferJob| j@);
                let ghost old_skipped = skipped.deep_view();
                let ghost bad_view = bad.deep_view();
                jobs.push(job);
                skipped.append(&mut bad);
                proof {
                    assert(jobs@.map_values(|j: TransferJob| j@) =~= old_jobs.push(jv));
                    assert(old_jobs + (seq![jv] + upload_plan_jobs(ls.skip(k + 1), pfx))
                        =~= jobs@.map_values(|j: TransferJob| j@) + upload_plan_jobs(
                        ls.skip(k + 1),
                        pfx,
                    ));
                    assert(skipped.deep_view() =~= old_skipped + bad_view);
                    assert(old_skipped + (bad_view + upload_plan_skipped(ls.skip(k + 1), pfx))
                        =~= skipped.deep_view() + upload_plan_skipped(ls.skip(k + 1), pfx));
                }
            },
        }
        k = k + 1;
    }
    proof {
        assert(ls.skip(k as int) =~= Seq::<Seq<char>>::empty());
        assert(upload_plan_jobs(ls, pfx) =~= jobs@.map_values(|j: TransferJob| j@));
        assert(upload_plan_rejected(ls, pfx) =~= rejected.deep_view());
        assert(upload_plan_skipped(ls, pfx) =~= skipped.deep_view());
    }
    BatchPlan { jobs, rejected, skipped_metadata: skipped }
}

} // verus!
