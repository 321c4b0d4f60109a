//! The history as it is kept between sessions: a file of records, each a
//! time and a path.
//!
//! Nothing here touches a file. Reading takes the content of the history
//! file, writing returns the bytes to put into it; whoever calls moves the
//! bytes and finds out which paths still exist.
use vstd::prelude::*;
use vstd::string::StringExecFns;
use crate::error::AppError;
use crate::model::history::{
    add_entry, components_from, distinct_components, get_paths, lemma_with_entry_keeps_distinct,
    paths_of, with_entry, History, HistoryNodeView, HistoryState,
};
use crate::path::{components_of, path_components};

verus! {

/// What the `csv` crate reads from `content` when no header is expected:
/// the records up to the first that cannot be read, each as its fields,
/// and whether every record could be read.
pub uninterp spec fn csv_records(content: Seq<u8>) -> (Seq<Seq<Seq<char>>>, bool);

/// What the `csv` crate writes for records of two fields each, where the
/// first field is the number in decimal digits.
pub uninterp spec fn csv_written(records: Seq<(u64, Seq<char>)>) -> Seq<u8>;

/// Reads `content` with `csv::Reader::records`, without a header, and
/// stops at the first record that cannot be read. The contract names the
/// result and claims nothing else of it.
#[verifier::external_body]
fn read_records(content: &Vec<u8>) -> (read: (Vec<Vec<String>>, bool))
    ensures
        read.deep_view() == csv_records(content@),
{
    let mut reader = csv::ReaderBuilder::new().has_headers(false).from_reader(content.as_slice());
    let mut records = Vec::new();
    for result in reader.records() {
        match result {
            Ok(record) => records.push(record.iter().map(|field| field.to_string()).collect()),
            Err(_) => return (records, false),
        }
    }
    (records, true)
}

/// Writes `records` with `csv::Writer::write_record`, one after the other,
/// into memory. The contract names the result and claims nothing else of it.
#[verifier::external_body]
fn write_records(records: &Vec<(u64, String)>) -> (written: Vec<u8>)
    ensures
        written@ == csv_written(records.deep_view()),
{
    let mut writer = csv::Writer::from_writer(Vec::new());
    for (changed_at, path) in records {
        let _ = writer.write_record([changed_at.to_string().as_str(), path.as_str()]);
    }
    match writer.into_inner() {
        Ok(written) => written,
        Err(_) => Vec::new(),
    }
}

/// The value of a decimal digit.
pub open spec fn digit_value(c: char) -> Option<nat> {
    if '0' <= c <= '9' {
        Some((c as u32 - '0' as u32) as nat)
    } else {
        None
    }
}

/// The number that the decimal digits stand for, if they all are digits.
pub open spec fn digits_value(digits: Seq<char>) -> Option<nat>
    decreases digits.len(),
{
    if digits.len() == 0 {
        Some(0)
    } else {
        match (digits_value(digits.drop_last()), digit_value(digits.last())) {
            (Some(value), Some(digit)) => Some(value * 10 + digit),
            _ => None,
        }
    }
}

/// The text without a plus sign at its beginning.
pub open spec fn unsigned(text: Seq<char>) -> Seq<char> {
    if text.len() > 0 && text[0] == '+' {
        text.drop_first()
    } else {
        text
    }
}

/// The number that the text stands for: an optional plus sign, then one or
/// more decimal digits, of a value that fits.
pub open spec fn parsed_u64(text: Seq<char>) -> Option<u64> {
    let digits = unsigned(text);
    if digits.len() == 0 {
        None
    } else {
        match digits_value(digits) {
            Some(value) => if value <= u64::MAX {
                Some(value as u64)
            } else {
                None
            },
            None => None,
        }
    }
}

/// The value of digits is at least the value of any beginning of them.
proof fn lemma_digits_grow(digits: Seq<char>, n: int)
    requires
        0 <= n <= digits.len(),
        digits_value(digits) is Some,
    ensures
        digits_value(digits.take(n)) is Some,
        digits_value(digits.take(n)).unwrap() <= digits_value(digits).unwrap(),
    decreases digits.len() - n,
{
    if n == digits.len() {
        assert(digits.take(n) =~= digits);
    } else {
        let shorter = digits.drop_last();
        assert(shorter.take(n) =~= digits.take(n));
        lemma_digits_grow(shorter, n);
    }
}

/// Digits with one that is none have no value.
proof fn lemma_digits_none(digits: Seq<char>, n: int)
    requires
        0 <= n <= digits.len(),
        digits_value(digits.take(n)) is None,
    ensures
        digits_value(digits) is None,
{
    if digits_value(digits) is Some {
        lemma_digits_grow(digits, n);
    }
}

/// Reads a number from `text`.
pub fn parse_u64(text: &str) -> (number: Option<u64>)
    ensures
        number == parsed_u64(text@),
{
    let length = text.unicode_len();
    let start: usize = if length > 0 && text.get_char(0) == '+' {
        1
    } else {
        0
    };
    if start == length {
        return None;
    }
    let ghost digits = unsigned(text@);
    let mut value: u64 = 0;
    let mut i: usize = start;
    proof {
        assert(digits.take(0) =~= Seq::<char>::empty());
    }
    while i < length
        invariant
            start <= i <= length,
            length == text@.len(),
            digits == unsigned(text@),
            digits.len() == length - start,
            start == 1 ==> digits == text@.drop_first(),
            start == 0 ==> digits == text@,
            digits_value(digits.take(i - start)) == Some(value as nat),
        decreases length - i,
    {
        let c = text.get_char(i);
        let ghost upto = digits.take(i - start + 1);
        proof {
            assert(digits[i - start] == c);
            assert(upto.drop_last() =~= digits.take(i - start));
            assert(upto.last() == c);
        }
        if c < '0' || c > '9' {
            proof {
                assert(digits_value(upto) is None);
                lemma_digits_none(digits, i - start + 1);
            }
            return None;
        }
        let digit: u64 = (c as u32 - '0' as u32) as u64;
        let next = match value.checked_mul(10) {
            Some(tens) => tens.checked_add(digit),
            None => None,
        };
        match next {
            Some(next) => {
                value = next;
            },
            None => {
                proof {
                    assert(digits_value(upto) == Some((value * 10 + digit) as nat));
                    if digits_value(digits) is Some {
                        lemma_digits_grow(digits, i - start + 1);
                    }
                }
                return None;
            },
        }
        i += 1;
    }
    proof {
        assert(digits.take(i - start) =~= digits);
    }
    Some(value)
}

/// What a record says: a time in its first field and a path, as its
/// components, in its second. A record of fewer fields says nothing, nor
/// does one whose first field is no number.
pub open spec fn record_entry(record: Seq<Seq<char>>) -> Option<(u64, Seq<Seq<char>>)> {
    if record.len() < 2 {
        None
    } else {
        match parsed_u64(record[0]) {
            Some(changed_at) => Some((changed_at, path_components(record[1]))),
            None => None,
        }
    }
}

/// The nodes after what the records say is recorded, record by record,
/// as loaded.
pub open spec fn with_records(nodes: Seq<HistoryNodeView>, records: Seq<Seq<Seq<char>>>) -> Seq<
    HistoryNodeView,
>
    decreases records.len(),
{
    if records.len() == 0 {
        nodes
    } else {
        let before = with_records(nodes, records.drop_last());
        match record_entry(records.last()) {
            Some((changed_at, components)) => with_entry(
                before,
                changed_at,
                HistoryState::Loaded,
                components,
            ),
            None => before,
        }
    }
}

/// Recording what records say keeps every component once among its
/// siblings.
pub proof fn lemma_with_records_keeps_distinct(
    nodes: Seq<HistoryNodeView>,
    records: Seq<Seq<Seq<char>>>,
)
    requires
        distinct_components(nodes),
    ensures
        distinct_components(with_records(nodes, records)),
    decreases records.len(),
{
    if records.len() > 0 {
        lemma_with_records_keeps_distinct(nodes, records.drop_last());
        match record_entry(records.last()) {
            Some((changed_at, components)) => {
                lemma_with_entry_keeps_distinct(
                    with_records(nodes, records.drop_last()),
                    changed_at,
                    HistoryState::Loaded,
                    components,
                );
            },
            None => {},
        }
    }
}

/// Records in `history` what `records` say, record by record, as loaded.
pub fn load_records(history: &mut History, records: &Vec<Vec<String>>)
    ensures
        final(history).deep_view() == with_records(old(history).deep_view(), records.deep_view()),
        distinct_components(old(history).deep_view()) ==> distinct_components(
            final(history).deep_view(),
        ),
{
    proof {
        if distinct_components(history.deep_view()) {
            lemma_with_records_keeps_distinct(history.deep_view(), records.deep_view());
        }
    }
    let mut i: usize = 0;
    proof {
        assert(records.deep_view().take(0) =~= Seq::empty());
    }
    while i < records.len()
        invariant
            i <= records.len(),
            history.deep_view() == with_records(
                old(history).deep_view(),
                records.deep_view().take(i as int),
            ),
        decreases records.len() - i,
    {
        let record = &records[i];
        proof {
            let upto = records.deep_view().take(i + 1);
            assert(upto.drop_last() =~= records.deep_view().take(i as int));
            assert(upto.last() == record.deep_view());
        }
        if record.len() >= 2 {
            proof {
                assert(record.deep_view()[0] == record@[0]@);
                assert(record.deep_view()[1] == record@[1]@);
            }
            match parse_u64(record[0].as_str()) {
                Some(changed_at) => {
                    let components = components_of(record[1].as_str());
                    proof {
                        assert(components.deep_view().skip(0) =~= components.deep_view());
                        assert(components_from(components.deep_view(), 0)
                            == components.deep_view());
                    }
                    add_entry(
                        &mut history.entries,
                        changed_at,
                        HistoryState::Loaded,
                        &components,
                        0,
                    );
                },
                None => {},
            }
        }
        i += 1;
    }
    proof {
        assert(records.deep_view().take(i as int) =~= records.deep_view());
    }
}

/// Reads the history from the content of the history file into `history`.
/// Every record up to the first that cannot be read is taken; if there is
/// one that cannot be read, the reading fails after those before it were
/// taken.
pub fn load(history: &mut History, content: &Vec<u8>) -> (result: Result<(), AppError>)
    ensures
        final(history).deep_view() == with_records(
            old(history).deep_view(),
            csv_records(content@).0,
        ),
        csv_records(content@).1 ==> result is Ok,
        !csv_records(content@).1 ==> result is Err && result->Err_0 is LoadHistoryFailed,
        distinct_components(old(history).deep_view()) ==> distinct_components(
            final(history).deep_view(),
        ),
{
    let (records, complete) = read_records(content);
    load_records(history, &records);
    if complete {
        Ok(())
    } else {
        Err(AppError::LoadHistoryFailed)
    }
}

/// The first `count` of `paths` that are in `state` and exist, each as a
/// record. A path without a flag in `exists` counts as missing.
pub open spec fn kept(
    paths: Seq<(u64, HistoryState, Seq<char>)>,
    state: HistoryState,
    exists: Seq<bool>,
    count: nat,
) -> Seq<(u64, Seq<char>)>
    decreases count,
{
    if count == 0 || count > paths.len() {
        Seq::empty()
    } else {
        let before = kept(paths, state, exists, (count - 1) as nat);
        let (changed_at, found, path) = paths[count - 1];
        if found == state && count - 1 < exists.len() && exists[count - 1] {
            before.push((changed_at, path))
        } else {
            before
        }
    }
}

/// The records to write for the recorded paths of `history` that are in
/// `state` and exist, where `exists` says of each recorded path, in the
/// order of `get_paths`, whether it does.
pub open spec fn records_to_save(
    history: Seq<HistoryNodeView>,
    state: HistoryState,
    exists: Seq<bool>,
) -> Seq<(u64, Seq<char>)> {
    let paths = paths_of(Seq::empty(), history);
    kept(paths, state, exists, paths.len())
}

/// The records to write for the recorded paths of `history` that are in
/// state `state_filter` and exist, where `exists` says of each recorded
/// path, in the order of `get_paths`, whether it does.
pub fn records_of(history: &History, state_filter: HistoryState, exists: &Vec<bool>) -> (records:
    Vec<(u64, String)>)
    ensures
        records.deep_view() == records_to_save(history.deep_view(), state_filter, exists@),
{
    let paths = get_paths(String::new(), &history.entries);
    let mut records: Vec<(u64, String)> = Vec::new();
    let mut i: usize = 0;
    proof {
        assert(records.deep_view() =~= Seq::empty());
    }
    while i < paths.len()
        invariant
            i <= paths.len(),
            records.deep_view() == kept(paths.deep_view(), state_filter, exists@, i as nat),
        decreases paths.len() - i,
    {
        let ghost before = records.deep_view();
        proof {
            assert(paths.deep_view()[i as int] == (
                paths@[i as int].0,
                paths@[i as int].1,
                paths@[i as int].2@,
            ));
        }
        if paths[i].1 == state_filter && i < exists.len() && exists[i] {
            records.push((paths[i].0, paths[i].2.clone()));
            proof {
                assert(records.deep_view() =~= before.push(
                    (paths@[i as int].0, paths@[i as int].2@),
                ));
            }
        }
        i += 1;
    }
    records
}

/// The bytes to write for the recorded paths of `history` that are in state
/// `state_filter` and exist, where `exists` says of each recorded path, in
/// the order of `get_paths`, whether it does.
pub fn save_filtered(history: &History, state_filter: HistoryState, exists: &Vec<bool>) -> (written:
    Vec<u8>)
    ensures
        written@ == csv_written(records_to_save(history.deep_view(), state_filter, exists@)),
{
    write_records(&records_of(history, state_filter, exists))
}

/// The bytes to append to the history file for what was added in this
/// session.
pub fn save(history: &History, exists: &Vec<bool>) -> (written: Vec<u8>)
    ensures
        written@ == csv_written(records_to_save(history.deep_view(), HistoryState::Added, exists@)),
{
    save_filtered(history, HistoryState::Added, exists)
}

/// The bytes to put in the place of the history file, whose content is
/// `content`: its records, each path once, without the paths that are gone.
/// `exists` says of each path that `content` records, in the order of
/// `get_paths`, whether it exists. Fails where `content` cannot be read.
pub fn optimize(content: &Vec<u8>, exists: &Vec<bool>) -> (result: Result<Vec<u8>, AppError>)
    ensures
        csv_records(content@).1 ==> result is Ok && result->Ok_0@ == csv_written(
            records_to_save(
                with_records(Seq::empty(), csv_records(content@).0),
                HistoryState::Loaded,
                exists@,
            ),
        ),
        !csv_records(content@).1 ==> result is Err && result->Err_0 is LoadHistoryFailed,
{
    let mut history = History::default();
    match load(&mut history, content) {
        Ok(()) => Ok(save_filtered(&history, HistoryState::Loaded, exists)),
        Err(error) => Err(error),
    }
}

/// The path of the history file below the cache directory, if there is one.
pub open spec fn history_path(cache_dir: Option<Seq<char>>) -> Option<Seq<char>> {
    match cache_dir {
        Some(directory) => Some(directory + "/yeet/history"@),
        None => None,
    }
}

/// The path of the history file below the cache directory. Fails where
/// there is no cache directory.
pub fn get_history_path(cache_dir: Option<String>) -> (result: Result<String, AppError>)
    ensures
        match history_path(cache_dir.deep_view()) {
            Some(path) => result is Ok && result->Ok_0@ == path,
            None => result is Err && result->Err_0 is LoadHistoryFailed,
        },
{
    match cache_dir {
        Some(directory) => Ok(directory.concat("/yeet/history")),
        None => Err(AppError::LoadHistoryFailed),
    }
}

} // verus!
