use vstd::prelude::*;

use crate::text::{split_lines, text_lines};

verus! {

/// Why the build events could not be read.
#[derive(Clone, Copy, Debug, PartialEq, Eq, Structural)]
pub enum DiscoverError {
    /// A line of the build output is not JSON.
    InvalidJson,
    /// A test artifact's `filenames` is not an array.
    FilenamesNotArray,
    /// A test artifact's `filenames` holds something other than a string.
    FilenameNotString,
}

/// What one build event says of its artifact.
#[derive(Debug)]
pub struct BuildEvent {
    /// `profile.test`, where it is a boolean.
    pub test: Option<bool>,
    /// `filenames`, where it is an array; each entry where it is a string.
    pub filenames: Option<Vec<Option<String>>>,
}

pub open spec fn string_views(v: Seq<String>) -> Seq<Seq<char>> {
    v.map_values(|s: String| s@)
}

/// What a build event holds, in plain values: `profile.test` where it is a boolean, and
/// `filenames` where it is an array, each entry where it is a string.
pub open spec fn option_views(v: Seq<Option<String>>) -> Seq<Option<Seq<char>>> {
    v.map_values(
        |o: Option<String>|
            match o {
                Some(s) => Some(s@),
                None => None,
            },
    )
}

pub open spec fn event_model(e: BuildEvent) -> (Option<bool>, Option<Seq<Option<Seq<char>>>>) {
    (
        e.test,
        match e.filenames {
            Some(fs) => Some(option_views(fs@)),
            None => None,
        },
    )
}

pub open spec fn event_model_of(r: Option<BuildEvent>) -> Option<
    (Option<bool>, Option<Seq<Option<Seq<char>>>>),
> {
    match r {
        Some(e) => Some(event_model(e)),
        None => None,
    }
}

/// What serde_json reads from one line: `None` where the line is not one JSON value, else
/// its `profile.test` where that is a boolean, and its `filenames` where that is an
/// array, each entry where it is a string.
pub uninterp spec fn json_event(line: Seq<char>) -> Option<
    (Option<bool>, Option<Seq<Option<Seq<char>>>>),
>;

/// Relies on `serde_json::from_str` to read the line as one JSON value, and on
/// `Value::pointer`, `as_bool`, `as_array` and `as_str` to pick out `profile.test` and
/// `filenames`.
#[verifier::external_body]
fn json_event_of(line: &str) -> (r: Option<BuildEvent>)
    ensures
        event_model_of(r) == json_event(line@),
{
    let v: serde_json::Value = match serde_json::from_str(line) {
        Ok(v) => v,
        Err(_) => return None,
    };
    let test = v.pointer("/profile/test").and_then(|t| t.as_bool());
    let filenames = v.pointer("/filenames").and_then(|f| f.as_array()).map(
        |a| a.iter().map(|x| x.as_str().map(|s| s.to_string())).collect(),
    );
    Some(BuildEvent { test, filenames })
}

/// The test binaries that one build event adds to the manifest.
pub open spec fn event_paths(
    test: Option<bool>,
    files: Option<Seq<Option<Seq<char>>>>,
) -> Result<Seq<Seq<char>>, DiscoverError> {
    if test == Some(true) {
        match files {
            None => Err(DiscoverError::FilenamesNotArray),
            Some(fs) => if forall|k: int| 0 <= k < fs.len() ==> (#[trigger] fs[k]) is Some {
                Ok(fs.map_values(|o: Option<Seq<char>>| o.unwrap()))
            } else {
                Err(DiscoverError::FilenameNotString)
            },
        }
    } else {
        Ok(seq![])
    }
}

pub open spec fn event_objects(e: BuildEvent) -> Result<Seq<Seq<char>>, DiscoverError> {
    event_paths(event_model(e).0, event_model(e).1)
}

/// The manifest of the build output's lines: the binaries of the test events, in order.
/// The first line that is not JSON, or the first test event with malformed `filenames`,
/// decides the error.
pub open spec fn manifest_of(lines: Seq<Seq<char>>) -> Result<Seq<Seq<char>>, DiscoverError>
    decreases lines.len(),
{
    if lines.len() == 0 {
        Ok(seq![])
    } else {
        match manifest_of(lines.drop_last()) {
            Err(e) => Err(e),
            Ok(p) => match json_event(lines.last()) {
                None => Err(DiscoverError::InvalidJson),
                Some(m) => match event_paths(m.0, m.1) {
                    Err(e) => Err(e),
                    Ok(o) => Ok(p + o),
                },
            },
        }
    }
}

/// Reads one line of the build output.
pub fn read_event(line: &str) -> (r: Result<BuildEvent, DiscoverError>)
    ensures
        match r {
            Ok(e) => json_event(line@) == Some(event_model(e)),
            Err(x) => json_event(line@) is None && x == DiscoverError::InvalidJson,
        },
{
    match json_event_of(line) {
        Some(e) => Ok(e),
        None => Err(DiscoverError::InvalidJson),
    }
}

/// Adds the binaries of one build event to the manifest.
pub fn append_event(objects: &mut Vec<String>, e: &BuildEvent) -> (r: Result<(), DiscoverError>)
    ensures
        match event_objects(*e) {
            Ok(o) => r is Ok && string_views(final(objects)@) == string_views(old(objects)@) + o,
            Err(x) => r == Err::<(), DiscoverError>(x),
        },
{
    let is_test = match e.test {
        Some(t) => t,
        None => false,
    };
    if !is_test {
        assert(string_views(objects@) =~= string_views(objects@) + seq![]);
        return Ok(());
    }
    let fs = match e.filenames.as_ref() {
        None => return Err(DiscoverError::FilenamesNotArray),
        Some(fs) => fs,
    };
    let ghost model = option_views(fs@);
    let mut i: usize = 0;
    while i < fs.len()
        invariant
            e.filenames == Some(*fs),
            e.test == Some(true),
            model == option_views(fs@),
            forall|k: int| 0 <= k < i ==> (#[trigger] fs@[k]) is Some,
        decreases fs.len() - i,
    {
        if fs[i].is_none() {
            assert(!(model[i as int] is Some));
            assert(!(forall|k: int| 0 <= k < model.len() ==> (#[trigger] model[k]) is Some));
            return Err(DiscoverError::FilenameNotString);
        }
        i = i + 1;
    }
    assert forall|k: int| 0 <= k < model.len() implies (#[trigger] model[k]) is Some by {
        assert(fs@[k] is Some);
    }
    let ghost paths = model.map_values(|o: Option<Seq<char>>| o.unwrap());
    let ghost start = string_views(objects@);
    let mut j: usize = 0;
    while j < fs.len()
        invariant
            j <= fs.len(),
            e.filenames == Some(*fs),
            e.test == Some(true),
            model == option_views(fs@),
            paths == model.map_values(|o: Option<Seq<char>>| o.unwrap()),
            forall|k: int| 0 <= k < model.len() ==> (#[trigger] model[k]) is Some,
            string_views(objects@) == start + paths.take(j as int),
        decreases fs.len() - j,
    {
        match &fs[j] {
            Some(name) => {
                let ghost before = objects@;
                objects.push(name.clone());
                assert(model[j as int] == Some(name@));
                assert(string_views(objects@) =~= string_views(before).push(name@));
                assert(paths.take(j + 1) =~= paths.take(j as int).push(name@));
            },
            None => {
                assert(model[j as int] is None);
                assert(false);
            },
        }
        j = j + 1;
    }
    assert(paths.take(fs.len() as int) =~= paths);
    Ok(())
}

proof fn lemma_manifest_error_stays(lines: Seq<Seq<char>>, n: int)
    requires
        0 <= n <= lines.len(),
        manifest_of(lines.take(n)) is Err,
    ensures
        manifest_of(lines) == manifest_of(lines.take(n)),
    decreases lines.len() - n,
{
    if n < lines.len() {
        assert(lines.take(n + 1).drop_last() =~= lines.take(n));
        lemma_manifest_error_stays(lines, n + 1);
    } else {
        assert(lines.take(n) =~= lines);
    }
}

/// Reads the test binaries out of the build tool's JSON messages, one per line.
pub fn get_objects(stdout: &str) -> (r: Result<Vec<String>, DiscoverError>)
    ensures
        match r {
            Ok(v) => manifest_of(text_lines(stdout@)) == Ok::<Seq<Seq<char>>, DiscoverError>(
                string_views(v@),
            ),
            Err(e) => manifest_of(text_lines(stdout@)) == Err::<Seq<Seq<char>>, DiscoverError>(e),
        },
{
    let lines = split_lines(stdout);
    let ghost ls = text_lines(stdout@);
    let mut objects: Vec<String> = Vec::new();
    let mut i: usize = 0;
    assert(string_views(objects@) =~= seq![]);
    while i < lines.len()
        invariant
            i <= lines.len() == ls.len(),
            ls == text_lines(stdout@),
            forall|k: int| 0 <= k < lines.len() ==> #[trigger] lines[k]@ == ls[k],
            manifest_of(ls.take(i as int)) == Ok::<Seq<Seq<char>>, DiscoverError>(
                string_views(objects@),
            ),
        decreases lines.len() - i,
    {
        assert(ls.take(i + 1).drop_last() =~= ls.take(i as int));
        assert(ls.take(i + 1).last() == ls[i as int]);
        let e = match read_event(lines[i].as_str()) {
            Ok(e) => e,
            Err(x) => {
                proof {
                    lemma_manifest_error_stays(ls, i + 1);
                }
                return Err(x);
            },
        };
        match append_event(&mut objects, &e) {
            Ok(()) => {},
            Err(x) => {
                proof {
                    lemma_manifest_error_stays(ls, i + 1);
                }
                return Err(x);
            },
        }
        i = i + 1;
    }
    assert(ls.take(ls.len() as int) =~= ls);
    Ok(objects)
}

} // verus!
