//! Positions and locations in documents, as the protocol reports them.

use vstd::prelude::*;
use crate::pathname::is_absolute_spec;
use crate::text::starts_with;

verus! {

/// A position in a document: a zero-based line and a character offset on it.
#[derive(Clone, Copy, Debug, PartialEq, Eq, Structural)]
pub struct Position {
    pub line: u32,
    pub character: u32,
}

/// The range between two positions.
#[derive(Clone, Copy, Debug, PartialEq, Eq, Structural)]
pub struct Range {
    pub start: Position,
    pub end: Position,
}

/// A range in the document named by a URI.
pub struct Location {
    pub uri: String,
    pub range: Range,
}

/// What a location says.
pub struct LocationView {
    pub uri: Seq<char>,
    pub range: Range,
}

impl View for Location {
    type V = LocationView;

    open spec fn view(&self) -> LocationView {
        LocationView { uri: self.uri@, range: self.range }
    }
}

impl Location {
    /// A copy of this location.
    pub fn duplicate(&self) -> (l: Location)
        ensures
            l@ == self@,
    {
        Location { uri: self.uri.clone(), range: self.range }
    }
}

/// The views of the values of a map of locations.
pub open spec fn location_views(m: Map<Seq<char>, Location>) -> Map<Seq<char>, LocationView> {
    m.map_values(|l: Location| l@)
}

/// The text of the `file:` URL that `url::Url::from_file_path` makes of an
/// absolute path.
pub uninterp spec fn file_url_of(path: Seq<char>) -> Seq<char>;

/// `url::Url::from_file_path`, as text. The crate refuses a path that is
/// not absolute; of any other it makes a `file:` URL, `file://` followed by
/// the path's components, each after a `/` and percent-encoded (or a lone
/// `/`), so the text starts with `file:///`. What the encoding does to each
/// component is not stated here.
#[verifier::external_body]
pub(crate) fn file_url(path: &str) -> (r: Option<String>)
    ensures
        r is None <==> !is_absolute_spec(path@),
        r matches Some(u) ==> u@ == file_url_of(path@) && starts_with(u@, "file:///"@),
{
    match url::Url::from_file_path(path) {
        Ok(u) => Some(u.to_string()),
        Err(_) => None,
    }
}

/// The file path that `url::Url::to_file_path` gives for a URL text.
pub uninterp spec fn url_file_path_of(uri: Seq<char>) -> Option<Seq<char>>;

/// `url::Url::parse` of the text and then `url::Url::to_file_path`: the
/// path a `file:` URL names (its percent-encoding undone), or `None` when
/// the text is no URL or no file URL. What the decoding gives is not stated
/// here.
#[verifier::external_body]
pub(crate) fn url_file_path(uri: &str) -> (r: Option<String>)
    ensures
        r matches Some(p) ==> url_file_path_of(uri@) == Some(p@),
        r is None ==> url_file_path_of(uri@) is None,
{
    match url::Url::parse(uri) {
        Ok(u) => match u.to_file_path() {
            Ok(p) => Some(p.to_string_lossy().into_owned()),
            Err(_) => None,
        },
        Err(_) => None,
    }
}

} // verus!
