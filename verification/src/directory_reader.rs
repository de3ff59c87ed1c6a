//! The directory scanner.
//!
//! A scan walks one file tree, extracts a record from every non-directory
//! entry it can, and serializes the records into messages in traversal
//! order.  A traversal failure is fatal and yields no partial result; a
//! per-file extraction failure is not: the file is skipped and the scan goes
//! on.
//!
//! The walk itself is I/O and stays outside the library: the program
//! iterates the tree, stops at the first traversal failure, and hands the
//! listing to [`select_files`] and the files' bytes to [`scan_files`], the
//! two specified scan steps.

use vstd::prelude::*;

use crate::message::{
    container_parses, get_exif, rendered_tag, rendered_timestamp_invalid, serialized,
    ExtractionError, Message, PhotoData, TagKind,
};

verus! {

#[verifier::external_type_specification]
#[verifier::external_body]
pub struct ExWalkdirError(walkdir::Error);

/// What selecting files out of a traversal listing yields: the paths of the
/// non-directory entries, in listing order, or the first traversal failure,
/// which is fatal and keeps every path to itself.
pub open spec fn selected_paths(s: Seq<Result<(String, bool), walkdir::Error>>) -> Result<
    Seq<Seq<char>>,
    walkdir::Error,
>
    decreases s.len(),
{
    if s.len() == 0 {
        Ok(Seq::empty())
    } else {
        match s[0] {
            Result::Err(e) => Err(e),
            Result::Ok(entry) => match selected_paths(s.drop_first()) {
                Result::Err(e) => Err(e),
                Result::Ok(rest) => Ok(
                    if entry.1 {
                        rest
                    } else {
                        seq![entry.0@] + rest
                    },
                ),
            },
        }
    }
}

/// A listing that starts with a traversal failure selects no path at all:
/// the failure is fatal and no partial result survives it.
pub proof fn lemma_traversal_error_selects_nothing(
    s: Seq<Result<(String, bool), walkdir::Error>>,
    e: walkdir::Error,
)
    requires
        s.len() > 0,
        s[0] == Err::<(String, bool), walkdir::Error>(e),
    ensures
        selected_paths(s) == Err::<Seq<Seq<char>>, walkdir::Error>(e),
{
}

/// Keeps the path of every non-directory entry of the listing, in order, or
/// returns the first traversal failure and no paths.
pub fn select_files(entries: Vec<Result<(String, bool), walkdir::Error>>) -> (r: Result<
    Vec<String>,
    walkdir::Error,
>)
    ensures
        r matches Ok(v) ==> selected_paths(entries@) == Ok::<Seq<Seq<char>>, walkdir::Error>(
            v@.map_values(|p: String| p@),
        ),
        r matches Err(e) ==> selected_paths(entries@) == Err::<Seq<Seq<char>>, walkdir::Error>(e),
{
    let ghost orig = entries@;
    let mut remaining = entries;
    let mut out: Vec<String> = Vec::new();
    while remaining.len() > 0
        invariant
            orig == entries@,
            selected_paths(orig) == (match selected_paths(remaining@) {
                Result::Ok(rest) => Ok::<Seq<Seq<char>>, walkdir::Error>(
                    out@.map_values(|p: String| p@) + rest,
                ),
                Result::Err(e) => Err::<Seq<Seq<char>>, walkdir::Error>(e),
            }),
        decreases remaining@.len(),
    {
        let ghost pre = remaining@;
        let entry = remaining.remove(0);
        proof {
            assert(remaining@ =~= pre.drop_first());
        }
        match entry {
            Ok((path, is_dir)) => {
                if !is_dir {
                    let ghost out_pre = out@;
                    out.push(path);
                    proof {
                        assert(out@.map_values(|p: String| p@) =~= out_pre.map_values(
                            |p: String| p@,
                        ) + seq![out@[out_pre.len() as int]@]);
                        if selected_paths(remaining@) is Ok {
                            assert(out_pre.map_values(|p: String| p@) + (seq![pre[0]->Ok_0.0@]
                                + selected_paths(remaining@)->Ok_0) =~= out@.map_values(
                                |p: String| p@,
                            ) + selected_paths(remaining@)->Ok_0);
                        }
                    }
                }
            },
            Err(e) => {
                proof {
                    assert(pre[0] == Err::<(String, bool), walkdir::Error>(e));
                    assert(selected_paths(pre) == Err::<Seq<Seq<char>>, walkdir::Error>(e));
                }
                return Err(e);
            },
        }
    }
    proof {
        assert(selected_paths(remaining@) == Ok::<Seq<Seq<char>>, walkdir::Error>(
            Seq::<Seq<char>>::empty(),
        ));
        assert(out@.map_values(|p: String| p@) + Seq::<Seq<char>>::empty() =~= out@.map_values(
            |p: String| p@,
        ));
    }
    Ok(out)
}

/// The records of the successful extractions, in input order.
pub open spec fn successful_records(rs: Seq<Result<PhotoData, ExtractionError>>) -> Seq<PhotoData>
    decreases rs.len(),
{
    if rs.len() == 0 {
        Seq::empty()
    } else {
        match rs[0] {
            Result::Ok(rec) => seq![rec] + successful_records(rs.drop_first()),
            Result::Err(_) => successful_records(rs.drop_first()),
        }
    }
}

/// The number of successful extractions.
pub open spec fn ok_count(rs: Seq<Result<PhotoData, ExtractionError>>) -> nat
    decreases rs.len(),
{
    if rs.len() == 0 {
        0
    } else {
        (if rs[0] is Ok {
            1nat
        } else {
            0nat
        }) + ok_count(rs.drop_first())
    }
}

/// The number of failed extractions.
pub open spec fn err_count(rs: Seq<Result<PhotoData, ExtractionError>>) -> nat
    decreases rs.len(),
{
    if rs.len() == 0 {
        0
    } else {
        (if rs[0] is Err {
            1nat
        } else {
            0nat
        }) + err_count(rs.drop_first())
    }
}

/// A scan over the extraction results of N extractable and M non-extractable
/// files yields exactly N records — one per successful extraction, none per
/// failed one, which is skipped, never fatal.
pub proof fn lemma_one_record_per_extractable(rs: Seq<Result<PhotoData, ExtractionError>>)
    ensures
        successful_records(rs).len() == ok_count(rs),
        ok_count(rs) + err_count(rs) == rs.len(),
    decreases rs.len(),
{
    if rs.len() > 0 {
        lemma_one_record_per_extractable(rs.drop_first());
    }
}

/// A failed extraction is skipped and nothing more: the scan of the results
/// with the failure dropped yields exactly the same records.
pub proof fn lemma_failed_extraction_is_skipped(
    rs: Seq<Result<PhotoData, ExtractionError>>,
    i: int,
)
    requires
        0 <= i < rs.len(),
        rs[i] is Err,
    ensures
        successful_records(rs) == successful_records(rs.remove(i)),
    decreases rs.len(),
{
    if i == 0 {
        assert(rs.remove(0) =~= rs.drop_first());
    } else {
        lemma_failed_extraction_is_skipped(rs.drop_first(), i - 1);
        assert(rs.remove(i).drop_first() =~= rs.drop_first().remove(i - 1));
        assert(rs.remove(i)[0] == rs[0]);
    }
}

/// Serializes the records of the successful extractions into messages, in
/// input order.  A failed extraction contributes no message and does not
/// stop the scan.
pub fn collect_messages(results: Vec<Result<PhotoData, ExtractionError>>) -> (msgs: Vec<Message>)
    ensures
        msgs@.len() == successful_records(results@).len(),
        forall|i: int|
            0 <= i < msgs@.len() ==> serialized(
                successful_records(results@)[i],
                #[trigger] msgs@[i],
            ),
{
    let ghost orig = results@;
    let mut remaining = results;
    let mut msgs: Vec<Message> = Vec::new();
    let ghost done: Seq<PhotoData> = Seq::empty();
    proof {
        assert(done + successful_records(remaining@) =~= successful_records(orig));
    }
    while remaining.len() > 0
        invariant
            successful_records(orig) == done + successful_records(remaining@),
            msgs@.len() == done.len(),
            forall|i: int| 0 <= i < done.len() ==> serialized(done[i], #[trigger] msgs@[i]),
        decreases remaining@.len(),
    {
        let ghost pre = remaining@;
        let result = remaining.remove(0);
        proof {
            assert(remaining@ =~= pre.drop_first());
        }
        match result {
            Ok(rec) => {
                msgs.push(Message::new(&rec));
                proof {
                    assert((done + seq![rec]) + successful_records(remaining@) =~= done + (
                        seq![rec] + successful_records(remaining@)));
                }
                proof {
                    done = done + seq![rec];
                }
            },
            Err(_) => (),
        }
    }
    proof {
        assert(done + successful_records(remaining@) =~= done);
    }
    msgs
}

/// The file extracts: its bytes are there, they hold a parseable metadata
/// container, and the rendered capture timestamp, if the container holds
/// one, names a real instant.
pub open spec fn file_extracts(f: (String, Option<Vec<u8>>)) -> bool {
    &&& f.1 matches Some(b)
    &&& container_parses(b@)
    &&& !rendered_timestamp_invalid(b@)
}

/// `rec` is the record of the file: named and keyed by the file's path, with
/// every field folded out of the container's named tag renderings.
pub open spec fn extracted(f: (String, Option<Vec<u8>>), rec: PhotoData) -> bool {
    &&& rec.name@ == f.0@
    &&& rec.path@ == f.0@
    &&& (f.1 matches Some(b) ==> crate::message::folded_coordinate(
        rendered_tag(b@, TagKind::Latitude),
        rec.lat,
    ) && crate::message::folded_coordinate(rendered_tag(b@, TagKind::Longitude), rec.long)
        && crate::message::folded_altitude_tag(rendered_tag(b@, TagKind::Altitude), rec.altitude@)
        && crate::message::folded_timestamp_tag(
        rendered_tag(b@, TagKind::Timestamp),
        rec.timestamp@,
    ))
}

/// `m` is the wire message of the file: keyed by the file's path, its body
/// fields folded out of the container's named tag renderings.
pub open spec fn message_of_file(f: (String, Option<Vec<u8>>), m: Message) -> bool {
    &&& m.key@ == f.0@
    &&& (f.1 matches Some(b) ==> crate::message::folded_coordinate(
        rendered_tag(b@, TagKind::Latitude),
        m.value.lat,
    ) && crate::message::folded_coordinate(rendered_tag(b@, TagKind::Longitude), m.value.long)
        && crate::message::folded_altitude_tag(
        rendered_tag(b@, TagKind::Altitude),
        m.value.altitude@,
    ) && crate::message::folded_timestamp_tag(
        rendered_tag(b@, TagKind::Timestamp),
        m.value.tmstmp@,
    ))
}

/// The extraction result belongs to the file: it succeeds exactly when the
/// file extracts, and a record is the file's own.
pub open spec fn extraction_matches(
    f: (String, Option<Vec<u8>>),
    r: Result<PhotoData, ExtractionError>,
) -> bool {
    &&& (r is Ok <==> file_extracts(f))
    &&& (r matches Ok(rec) ==> extracted(f, rec))
}

/// The extractable files of a listing, in listing order.
pub open spec fn extractable_files(files: Seq<(String, Option<Vec<u8>>)>) -> Seq<
    (String, Option<Vec<u8>>),
>
    decreases files.len(),
{
    if files.len() == 0 {
        Seq::empty()
    } else if file_extracts(files[0]) {
        seq![files[0]] + extractable_files(files.drop_first())
    } else {
        extractable_files(files.drop_first())
    }
}

/// When every extraction result belongs to its file, the successful records
/// are exactly the records of the extractable files, one each, in order.
proof fn lemma_scan_correspondence(
    files: Seq<(String, Option<Vec<u8>>)>,
    rs: Seq<Result<PhotoData, ExtractionError>>,
)
    requires
        rs.len() == files.len(),
        forall|k: int| 0 <= k < rs.len() ==> extraction_matches(files[k], #[trigger] rs[k]),
    ensures
        successful_records(rs).len() == extractable_files(files).len(),
        forall|i: int|
            0 <= i < successful_records(rs).len() ==> extracted(
                extractable_files(files)[i],
                #[trigger] successful_records(rs)[i],
            ),
    decreases rs.len(),
{
    if rs.len() > 0 {
        assert forall|k: int|
            0 <= k < rs.drop_first().len() implies extraction_matches(
            files.drop_first()[k],
            #[trigger] rs.drop_first()[k],
        ) by {
            assert(rs.drop_first()[k] == rs[k + 1]);
            assert(files.drop_first()[k] == files[k + 1]);
        }
        lemma_scan_correspondence(files.drop_first(), rs.drop_first());
        assert(extraction_matches(files[0], rs[0]));
        let stail = successful_records(rs.drop_first());
        let ftail = extractable_files(files.drop_first());
        if rs[0] is Ok {
            assert(successful_records(rs) == seq![rs[0]->Ok_0] + stail);
            assert(extractable_files(files) == seq![files[0]] + ftail);
            assert forall|i: int|
                0 <= i < successful_records(rs).len() implies extracted(
                extractable_files(files)[i],
                #[trigger] successful_records(rs)[i],
            ) by {
                if i == 0 {
                    assert(successful_records(rs)[0] == rs[0]->Ok_0);
                    assert(extractable_files(files)[0] == files[0]);
                } else {
                    assert(successful_records(rs)[i] == stail[i - 1]);
                    assert(extractable_files(files)[i] == ftail[i - 1]);
                }
            }
        } else {
            assert(successful_records(rs) == stail);
            assert(extractable_files(files) == ftail);
        }
    }
}

/// Extracts a record from every listed file and serializes the successful
/// ones.  Each file comes with its bytes, or `None` where it would not
/// open.  The scan yields exactly one message per extractable file — a
/// non-extractable file is skipped, never fatal — in listing order, each
/// keyed by its file's path with the body folded out of that file's named
/// tag renderings.
pub fn scan_files(files: Vec<(String, Option<Vec<u8>>)>) -> (msgs: Vec<Message>)
    ensures
        msgs@.len() == extractable_files(files@).len(),
        msgs@.len() <= files@.len(),
        forall|i: int|
            0 <= i < msgs@.len() ==> message_of_file(
                extractable_files(files@)[i],
                #[trigger] msgs@[i],
            ),
{
    let ghost orig = files@;
    let total = files.len();
    let mut remaining = files;
    let mut results: Vec<Result<PhotoData, ExtractionError>> = Vec::new();
    proof {
        assert(orig.skip(0) =~= orig);
    }
    while remaining.len() > 0
        invariant
            orig == files@,
            results@.len() + remaining@.len() == total,
            total == orig.len(),
            remaining@ == orig.skip(results@.len() as int),
            forall|k: int|
                0 <= k < results@.len() ==> extraction_matches(orig[k], #[trigger] results@[k]),
        decreases remaining@.len(),
    {
        let ghost pre = remaining@;
        let ghost done = results@.len() as int;
        let (path, content) = remaining.remove(0);
        proof {
            assert(pre[0] == orig[done]);
            assert(remaining@ =~= orig.skip(done + 1));
        }
        let outcome = get_exif(path.as_str(), content);
        proof {
            assert(extraction_matches(orig[done], outcome));
        }
        results.push(outcome);
    }
    proof {
        lemma_one_record_per_extractable(results@);
        lemma_scan_correspondence(orig, results@);
    }
    let ghost rs = results@;
    let msgs = collect_messages(results);
    proof {
        assert forall|i: int| 0 <= i < msgs@.len() implies message_of_file(
            extractable_files(files@)[i],
            #[trigger] msgs@[i],
        ) by {
            let rec = successful_records(rs)[i];
            assert(serialized(rec, msgs@[i]));
            assert(extracted(extractable_files(orig)[i], rec));
        }
    }
    msgs
}

} // verus!
