//! Record mapping: turning one file's decoded tag data into a normalized
//! metadata record, and folding a directory's worth of per-entry outcomes
//! into the batch result.
//!
//! A record exists only when the mandatory Title and Artist fields were
//! decoded; Genre, rating, release date and BPM fall back independently and
//! never block record creation. A batch scan never fails on a single file:
//! each non-convertible file is reported by path and left out.

use crate::parse::parse_i64;
use crate::parse::parse_i64_spec;
use crate::tag::AudioFileFormat;
use crate::tag::Field;
use crate::tag::Tag;
use crate::tag::TagModel;
use crate::tag::clone_string_vec;
use crate::tag::lookup_field;
use vstd::prelude::*;

verus! {

/// Mathematical model of [`QuickTagFile`]: every string as a sequence of
/// characters.
#[verifier::ext_equal]
pub struct QuickTagFileModel {
    /// The file's path as given to the mapper.
    pub path: Seq<char>,
    /// The detected audio format.
    pub format: AudioFileFormat,
    /// First value of the Title field.
    pub title: Seq<char>,
    /// All values of the Artist field, order preserved.
    pub artists: Seq<Seq<char>>,
    /// All values of the Genre field; empty when the field is absent.
    pub genres: Seq<Seq<char>>,
    /// Release date as decoded, absent when unavailable.
    pub release_date: Option<Seq<char>>,
    /// First BPM value parsed as an integer; absent when the field is
    /// missing or its first value does not parse.
    pub bpm: Option<i64>,
    /// Rating; zero when the format carries none.
    pub rating: u8,
    /// The complete raw tag map.
    pub tags: Seq<(Seq<char>, Seq<Seq<char>>)>,
}

/// One audio file's normalized metadata snapshot at scan time.
#[derive(Clone, Debug)]
pub struct QuickTagFile {
    /// The file's path as given to the mapper.
    pub path: String,
    /// The detected audio format.
    pub format: AudioFileFormat,
    /// First value of the Title field.
    pub title: String,
    /// All values of the Artist field, order preserved.
    pub artists: Vec<String>,
    /// All values of the Genre field; empty when the field is absent.
    pub genres: Vec<String>,
    /// Release date as decoded, absent when unavailable.
    pub release_date: Option<String>,
    /// First BPM value parsed as an integer; absent when the field is
    /// missing or its first value does not parse.
    pub bpm: Option<i64>,
    /// Rating; zero when the format carries none.
    pub rating: u8,
    /// The complete raw tag map.
    pub tags: Vec<(String, Vec<String>)>,
}

impl View for QuickTagFile {
    type V = QuickTagFileModel;

    open spec fn view(&self) -> QuickTagFileModel {
        QuickTagFileModel {
            path: self.path@,
            format: self.format,
            title: self.title@,
            artists: self.artists.deep_view(),
            genres: self.genres.deep_view(),
            release_date: self.release_date.deep_view(),
            bpm: self.bpm,
            rating: self.rating,
            tags: self.tags.deep_view(),
        }
    }
}

impl DeepView for QuickTagFile {
    type V = QuickTagFileModel;

    open spec fn deep_view(&self) -> QuickTagFileModel {
        self.view()
    }
}

/// The decoded data suffices for a record: a generic tag view exists, the
/// Title field has a first value, and the Artist field is present (possibly
/// with no values).
pub open spec fn tag_converts(t: TagModel) -> bool {
    &&& t.data is Some
    &&& (lookup_field(t.data->Some_0.fields, Field::Title) matches Some(tv) && tv.len() > 0)
    &&& lookup_field(t.data->Some_0.fields, Field::Artist) is Some
}

/// The record mapped from `path` and decoded data `t`; meaningful when
/// `tag_converts(t)` holds.
pub open spec fn record_of(path: Seq<char>, t: TagModel) -> QuickTagFileModel {
    let d = t.data->Some_0;
    QuickTagFileModel {
        path: path,
        format: t.format,
        title: lookup_field(d.fields, Field::Title)->Some_0[0],
        artists: lookup_field(d.fields, Field::Artist)->Some_0,
        genres: match lookup_field(d.fields, Field::Genre) {
            Some(g) => g,
            None => Seq::empty(),
        },
        release_date: d.date,
        bpm: match lookup_field(d.fields, Field::BPM) {
            Some(v) => if v.len() == 0 {
                None
            } else {
                parse_i64_spec(v[0])
            },
            None => None,
        },
        rating: match d.rating {
            Some(x) => x,
            None => 0u8,
        },
        tags: d.tag_entries,
    }
}

impl QuickTagFile {
    /// Map one decode outcome to a record: `None` when decoding failed, else
    /// the record mapped from the decoded data, `None` when a mandatory
    /// field is missing.
    pub fn from_path(path: &str, loaded: Option<&Tag>) -> (r: Option<QuickTagFile>)
        ensures
            r is Some <==> (loaded matches Some(t) && tag_converts(t@)),
            r matches Some(q) ==> loaded matches Some(t) && q@ == record_of(path@, t@),
    {
        match loaded {
            Some(tag_wrap) => QuickTagFile::from_tag(path, tag_wrap),
            None => None,
        }
    }

    /// Map decoded tag data to a record. Title and Artist are mandatory:
    /// without both, no record. Genre defaults to no values, rating to 0;
    /// release date and BPM stay absent when unavailable, and a BPM value
    /// that does not parse as an integer counts as absent.
    pub fn from_tag(path: &str, tag_wrap: &Tag) -> (r: Option<QuickTagFile>)
        ensures
            r is Some <==> tag_converts(tag_wrap@),
            r matches Some(q) ==> q@ == record_of(path@, tag_wrap@),
    {
        let tag = match tag_wrap.tag() {
            Some(t) => t,
            None => {
                return None;
            },
        };
        let title_vals = match tag.get_field(Field::Title) {
            Some(v) => v,
            None => {
                return None;
            },
        };
        if title_vals.len() == 0 {
            return None;
        }
        let title = title_vals[0].clone();
        let artists = match tag.get_field(Field::Artist) {
            Some(v) => v,
            None => {
                return None;
            },
        };
        let genres = match tag.get_field(Field::Genre) {
            Some(v) => v,
            None => Vec::new(),
        };
        let rating = match tag.get_rating() {
            Some(x) => x,
            None => 0,
        };
        let release_date = tag.get_date();
        let bpm = match tag.get_field(Field::BPM) {
            Some(v) => if v.len() == 0 {
                None
            } else {
                parse_i64(v[0].as_str())
            },
            None => None,
        };
        let tags = tag.all_tags();
        let q = QuickTagFile {
            path: path.to_owned(),
            format: tag_wrap.format,
            title,
            artists,
            genres,
            release_date,
            bpm,
            rating,
            tags,
        };
        proof {
            assert(q@ =~= record_of(path@, tag_wrap@));
        }
        Some(q)
    }
}

/// Model of one directory entry as the scan sees it.
pub enum ScanEntryModel {
    /// The entry could not be read; skipped silently.
    Unreadable,
    /// A sub-directory; skipped silently.
    Directory,
    /// A file, with the outcome of decoding it: `None` when decoding failed.
    File { path: Seq<char>, decoded: Option<TagModel> },
}

/// One directory entry as the scan sees it: unreadable, a sub-directory, or
/// a file together with the outcome of decoding it.
#[derive(Clone, Debug)]
pub enum ScanEntry {
    /// The entry could not be read; skipped silently.
    Unreadable,
    /// A sub-directory; skipped silently.
    Directory,
    /// A file, with the outcome of decoding it: `None` when decoding failed.
    File { path: String, decoded: Option<Tag> },
}

impl View for ScanEntry {
    type V = ScanEntryModel;

    open spec fn view(&self) -> ScanEntryModel {
        match self {
            ScanEntry::Unreadable => ScanEntryModel::Unreadable,
            ScanEntry::Directory => ScanEntryModel::Directory,
            ScanEntry::File { path, decoded } => ScanEntryModel::File {
                path: path@,
                decoded: match decoded {
                    Some(t) => Some(t@),
                    None => None,
                },
            },
        }
    }
}

impl DeepView for ScanEntry {
    type V = ScanEntryModel;

    open spec fn deep_view(&self) -> ScanEntryModel {
        self.view()
    }
}

/// The entry is a file whose decoded data suffices for a record.
pub open spec fn entry_converts(e: ScanEntryModel) -> bool {
    e matches ScanEntryModel::File { path, decoded: Some(t) } && tag_converts(t)
}

/// Records of all converting file entries, in entry order.
pub open spec fn scan_records(s: Seq<ScanEntryModel>) -> Seq<QuickTagFileModel>
    decreases s.len(),
{
    if s.len() == 0 {
        Seq::empty()
    } else {
        let rest = scan_records(s.drop_last());
        if entry_converts(s.last()) {
            rest.push(record_of(s.last()->File_path, s.last()->File_decoded->Some_0))
        } else {
            rest
        }
    }
}

/// Paths of all file entries that yield no record, in entry order.
pub open spec fn scan_failures(s: Seq<ScanEntryModel>) -> Seq<Seq<char>>
    decreases s.len(),
{
    if s.len() == 0 {
        Seq::empty()
    } else {
        let rest = scan_failures(s.drop_last());
        if s.last() is File && !entry_converts(s.last()) {
            rest.push(s.last()->File_path)
        } else {
            rest
        }
    }
}

/// How many entries are files.
pub open spec fn count_files(s: Seq<ScanEntryModel>) -> int
    decreases s.len(),
{
    if s.len() == 0 {
        0
    } else {
        count_files(s.drop_last()) + if s.last() is File {
            1int
        } else {
            0int
        }
    }
}

/// How many entries are files that convert to a record.
pub open spec fn count_converting(s: Seq<ScanEntryModel>) -> int
    decreases s.len(),
{
    if s.len() == 0 {
        0
    } else {
        count_converting(s.drop_last()) + if entry_converts(s.last()) {
            1int
        } else {
            0int
        }
    }
}

/// The batch loader: folds a directory's worth of entries into records.
pub struct QuickTag {}

impl QuickTag {
    /// Fold one directory's entries into the batch result: the records of
    /// all converting files in entry order, and the paths of the files that
    /// yielded none, to be reported by the caller. Unreadable entries and
    /// sub-directories are passed over silently.
    pub fn load_files(entries: &Vec<ScanEntry>) -> (r: (Vec<QuickTagFile>, Vec<String>))
        ensures
            r.0.deep_view() == scan_records(entries.deep_view()),
            r.1.deep_view() == scan_failures(entries.deep_view()),
    {
        let ghost dv = entries.deep_view();
        let mut records: Vec<QuickTagFile> = Vec::new();
        let mut failures: Vec<String> = Vec::new();
        let mut i: usize = 0;
        while i < entries.len()
            invariant
                i <= entries.len(),
                dv == entries.deep_view(),
                dv.len() == entries.len(),
                records.deep_view() == scan_records(dv.subrange(0, i as int)),
                failures.deep_view() == scan_failures(dv.subrange(0, i as int)),
            decreases entries.len() - i,
        {
            let ghost pre = dv.subrange(0, i as int);
            let ghost cur = dv.subrange(0, i + 1 as int);
            proof {
                assert(cur.drop_last() =~= pre);
                assert(cur.last() == dv[i as int]);
                assert(dv[i as int] == entries@[i as int]@);
            }
            match &entries[i] {
                ScanEntry::Unreadable => {
                    assert(scan_records(cur) == scan_records(pre));
                },
                ScanEntry::Directory => {
                    assert(scan_records(cur) == scan_records(pre));
                },
                ScanEntry::File { path, decoded } => {
                    match QuickTagFile::from_path(path.as_str(), decoded.as_ref()) {
                        Some(q) => {
                            let ghost prev = records.deep_view();
                            proof {
                                assert(entry_converts(cur.last()));
                                assert(q@ == record_of(
                                    cur.last()->File_path,
                                    cur.last()->File_decoded->Some_0,
                                ));
                            }
                            records.push(q);
                            proof {
                                assert(records.deep_view().len() == prev.len() + 1);
                                assert(forall|j: int|
                                    0 <= j < prev.len() ==> #[trigger] records.deep_view()[j]
                                        == prev[j]);
                                assert(records.deep_view() =~= scan_records(cur));
                            }
                        },
                        None => {
                            let ghost prev = failures.deep_view();
                            proof {
                                assert(!entry_converts(cur.last()));
                                assert(path@ == cur.last()->File_path);
                            }
                            failures.push(path.clone());
                            proof {
                                assert(failures.deep_view().len() == prev.len() + 1);
                                assert(forall|j: int|
                                    0 <= j < prev.len() ==> #[trigger] failures.deep_view()[j]
                                        == prev[j]);
                                assert(failures.deep_view() =~= scan_failures(cur));
                            }
                        },
                    }
                },
            }
            i = i + 1;
            assert(dv.subrange(0, i as int) == cur);
        }
        proof {
            assert(dv.subrange(0, i as int) =~= dv);
        }
        (records, failures)
    }
}

/// Law: a directory holding only sub-directories scans to no records and no
/// reported failures, not to an error.
pub proof fn lemma_directories_only_scan_empty(s: Seq<ScanEntryModel>)
    requires
        forall|i: int| 0 <= i < s.len() ==> s[i] is Directory,
    ensures
        scan_records(s) == Seq::<QuickTagFileModel>::empty(),
        scan_failures(s) == Seq::<Seq<char>>::empty(),
    decreases s.len(),
{
    if s.len() > 0 {
        assert(forall|i: int| 0 <= i < s.drop_last().len() ==> #[trigger] s.drop_last()[i]
            == s[i]);
        lemma_directories_only_scan_empty(s.drop_last());
    }
}

/// Law: a decoded file with no Title field yields no record.
pub proof fn lemma_no_title_no_record(t: TagModel)
    requires
        t.data matches Some(d) && lookup_field(d.fields, Field::Title) is None,
    ensures
        !tag_converts(t),
{
}

/// Law: Title with a value and an Artist field, even one with no values,
/// suffice for a record; absent Genre, BPM, rating and date fall back to an
/// empty sequence, absent, zero and absent.
pub proof fn lemma_minimal_fields_give_record(path: Seq<char>, t: TagModel)
    requires
        t.data matches Some(d),
        lookup_field(t.data->Some_0.fields, Field::Title) matches Some(tv) && tv.len() > 0,
        lookup_field(t.data->Some_0.fields, Field::Artist) is Some,
        lookup_field(t.data->Some_0.fields, Field::Genre) is None,
        lookup_field(t.data->Some_0.fields, Field::BPM) is None,
        t.data->Some_0.rating is None,
        t.data->Some_0.date is None,
    ensures
        tag_converts(t),
        record_of(path, t).genres == Seq::<Seq<char>>::empty(),
        record_of(path, t).bpm is None,
        record_of(path, t).rating == 0,
        record_of(path, t).release_date is None,
{
}

/// Law: of N file entries of which exactly K yield no record, the scan keeps
/// N - K records and reports K failures.
pub proof fn lemma_scan_partition(s: Seq<ScanEntryModel>)
    ensures
        scan_records(s).len() == count_converting(s),
        scan_failures(s).len() == count_files(s) - count_converting(s),
    decreases s.len(),
{
    if s.len() > 0 {
        lemma_scan_partition(s.drop_last());
    }
}

/// Law: a produced record's raw tag map equals the full decoded tag map,
/// whatever became of the canonical fields above it.
pub proof fn lemma_tags_passthrough(path: Seq<char>, t: TagModel)
    requires
        t.data is Some,
    ensures
        record_of(path, t).tags == t.data->Some_0.tag_entries,
{
}

} // verus!
