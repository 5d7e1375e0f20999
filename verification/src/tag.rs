//! Model of the data an external tag-access layer yields for one audio file:
//! the detected format, canonical field values, rating, release date, and the
//! complete raw tag map. The layer itself (format detection and raw decoding)
//! stays outside this crate; callers decode a file and hand the result over as
//! plain values of these types.

use vstd::prelude::*;

verus! {

/// The closed set of audio container / codec classifications the tag-access
/// layer can detect.
#[derive(Clone, Copy, Debug, PartialEq, Eq, Structural)]
pub enum AudioFileFormat {
    Flac,
    Aiff,
    Mp3,
    Mp4,
    Ogg,
    Wav,
}

impl DeepView for AudioFileFormat {
    type V = AudioFileFormat;

    open spec fn deep_view(&self) -> AudioFileFormat {
        *self
    }
}

/// Canonical, format-independent field identifiers used to query decoded tag
/// data.
#[derive(Clone, Copy, Debug, PartialEq, Eq, Structural)]
pub enum Field {
    Title,
    Artist,
    AlbumArtist,
    Album,
    Genre,
    Style,
    Label,
    Key,
    BPM,
    TrackNumber,
}

impl DeepView for Field {
    type V = Field;

    open spec fn deep_view(&self) -> Field {
        *self
    }
}

/// Mathematical model of [`TagData`]: every string as a sequence of
/// characters.
pub struct TagDataModel {
    /// Canonical fields, in decoding order: identifier and values.
    pub fields: Seq<(Field, Seq<Seq<char>>)>,
    /// Rating, when the format carries one.
    pub rating: Option<u8>,
    /// Release date as the layer renders it, unnormalized.
    pub date: Option<Seq<char>>,
    /// The complete raw tag map: key and values, every pair the layer found.
    pub tag_entries: Seq<(Seq<char>, Seq<Seq<char>>)>,
}

/// The generic tag view decoded from one file: canonical field values plus
/// the raw key-to-values map.
#[derive(Clone, Debug)]
pub struct TagData {
    /// Canonical fields, in decoding order: identifier and values.
    pub fields: Vec<(Field, Vec<String>)>,
    /// Rating, when the format carries one.
    pub rating: Option<u8>,
    /// Release date as the layer renders it, unnormalized.
    pub date: Option<String>,
    /// The complete raw tag map: key and values, every pair the layer found.
    pub tag_entries: Vec<(String, Vec<String>)>,
}

impl View for TagData {
    type V = TagDataModel;

    open spec fn view(&self) -> TagDataModel {
        TagDataModel {
            fields: self.fields.deep_view(),
            rating: self.rating,
            date: self.date.deep_view(),
            tag_entries: self.tag_entries.deep_view(),
        }
    }
}

impl DeepView for TagData {
    type V = TagDataModel;

    open spec fn deep_view(&self) -> TagDataModel {
        self.view()
    }
}

/// Mathematical model of [`Tag`].
pub struct TagModel {
    /// The detected format.
    pub format: AudioFileFormat,
    /// The decoded generic tag view, absent when the file carries none.
    pub data: Option<TagDataModel>,
}

/// The outcome of decoding one file: the detected format and, when the file
/// carries one, the generic tag view.
#[derive(Clone, Debug)]
pub struct Tag {
    /// The detected format.
    pub format: AudioFileFormat,
    /// The decoded generic tag view, absent when the file carries none.
    pub data: Option<TagData>,
}

impl View for Tag {
    type V = TagModel;

    open spec fn view(&self) -> TagModel {
        TagModel {
            format: self.format,
            data: match self.data {
                Some(d) => Some(d@),
                None => None,
            },
        }
    }
}

impl DeepView for Tag {
    type V = TagModel;

    open spec fn deep_view(&self) -> TagModel {
        self.view()
    }
}

/// Values of the first entry for `field`, `None` when no entry carries it.
pub open spec fn lookup_field(fields: Seq<(Field, Seq<Seq<char>>)>, field: Field) -> Option<
    Seq<Seq<char>>,
>
    decreases fields.len(),
{
    if fields.len() == 0 {
        None
    } else if fields[0].0 == field {
        Some(fields[0].1)
    } else {
        lookup_field(fields.drop_first(), field)
    }
}

/// Clone a vector of strings; the copy holds the same strings.
pub(crate) fn clone_string_vec(v: &Vec<String>) -> (r: Vec<String>)
    ensures
        r@ == v@,
        r.deep_view() == v.deep_view(),
{
    let mut r: Vec<String> = Vec::new();
    let mut i: usize = 0;
    while i < v.len()
        invariant
            i <= v.len(),
            r@ =~= v@.subrange(0, i as int),
        decreases v.len() - i,
    {
        r.push(v[i].clone());
        i = i + 1;
        assert(r@ =~= v@.subrange(0, i as int));
    }
    assert(v@.subrange(0, v.len() as int) =~= v@);
    assert(r.deep_view() =~= v.deep_view());
    r
}

impl Tag {
    /// The generic tag view, when the file carried one.
    pub fn tag(&self) -> (r: Option<&TagData>)
        ensures
            r matches Some(d) ==> self@.data == Some(d@),
            r is Some <==> self@.data is Some,
    {
        match &self.data {
            Some(d) => Some(d),
            None => None,
        }
    }
}

impl TagData {
    /// Values of the canonical field `field`, `None` when the decoded data
    /// has no entry for it.
    pub fn get_field(&self, field: Field) -> (r: Option<Vec<String>>)
        ensures
            r matches Some(v) ==> lookup_field(self@.fields, field) == Some(v.deep_view()),
            r is Some <==> lookup_field(self@.fields, field) is Some,
    {
        let mut i: usize = 0;
        assert(self@.fields.skip(0) =~= self@.fields);
        while i < self.fields.len()
            invariant
                i <= self.fields.len(),
                lookup_field(self@.fields, field) == lookup_field(
                    self@.fields.skip(i as int),
                    field,
                ),
                forall|j: int| 0 <= j < i ==> #[trigger] self@.fields[j].0 != field,
            decreases self.fields.len() - i,
        {
            let ghost rest = self@.fields.skip(i as int);
            assert(rest[0] == self@.fields[i as int]);
            assert(rest.drop_first() =~= self@.fields.skip(i + 1));
            if self.fields[i].0 == field {
                let r = clone_string_vec(&self.fields[i].1);
                assert(self@.fields[i as int].1 == r.deep_view());
                return Some(r);
            }
            i = i + 1;
        }
        assert(self@.fields.skip(i as int) =~= Seq::<(Field, Seq<Seq<char>>)>::empty());
        None
    }

    /// The rating, when the format carries one.
    pub fn get_rating(&self) -> (r: Option<u8>)
        ensures
            r == self@.rating,
    {
        self.rating
    }

    /// The release date, when the layer produced one.
    pub fn get_date(&self) -> (r: Option<String>)
        ensures
            r.deep_view() == self@.date,
    {
        match &self.date {
            Some(d) => Some(d.clone()),
            None => None,
        }
    }

    /// The complete raw tag map, every key with its values.
    pub fn all_tags(&self) -> (r: Vec<(String, Vec<String>)>)
        ensures
            r.deep_view() == self@.tag_entries,
    {
        let mut r: Vec<(String, Vec<String>)> = Vec::new();
        let mut i: usize = 0;
        while i < self.tag_entries.len()
            invariant
                i <= self.tag_entries.len(),
                r.deep_view() =~= self.tag_entries.deep_view().subrange(0, i as int),
            decreases self.tag_entries.len() - i,
        {
            let key = self.tag_entries[i].0.clone();
            let values = clone_string_vec(&self.tag_entries[i].1);
            proof {
                assert(key == self.tag_entries@[i as int].0);
                assert(values.deep_view() == self.tag_entries@[i as int].1.deep_view());
                assert((key, values).deep_view() == self.tag_entries.deep_view()[i as int]);
            }
            let ghost prev = r.deep_view();
            let ghost dv = self.tag_entries.deep_view();
            r.push((key, values));
            proof {
                assert(r.deep_view().len() == prev.len() + 1);
                assert(forall|j: int|
                    0 <= j < prev.len() ==> #[trigger] r.deep_view()[j] == prev[j]);
                assert(r.deep_view()[prev.len() as int] == dv[i as int]);
                assert(r.deep_view() =~= prev.push(dv[i as int]));
            }
            i = i + 1;
            assert(r.deep_view() =~= self.tag_entries.deep_view().subrange(0, i as int));
        }
        assert(self.tag_entries.deep_view().subrange(0, self.tag_entries.len() as int)
            =~= self.tag_entries.deep_view());
        assert(r.deep_view() =~= self.tag_entries.deep_view());
        r
    }
}

} // verus!
