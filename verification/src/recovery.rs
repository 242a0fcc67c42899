//! What is said about documents that survived a crash.

use crate::path::{self, file_name, parent};
use crate::save::Question;
use crate::text::{self, decimal, joined, joined3, same};
use vstd::prelude::*;
use vstd::string::*;

verus! {

/// How many recovered documents are named.
pub const LISTED: usize = 8;

/// A document whose unsaved changes were written to disk as the app went
/// down.
pub struct Recovered {
    pub path: Option<String>,
    pub text: Vec<u8>,
}

/// How a recovered document is named: by its file and the folder it is in.
pub open spec fn named(d: Recovered) -> Seq<char> {
    match d.path {
        None => "Untitled"@,
        Some(place) => {
            let name = match path::file_name_of(place@) {
                Some(name) => name,
                None => place@,
            };
            let folder = match path::parent_of(place@) {
                Some(folder) => path::file_name_of(folder),
                None => None,
            };
            match folder {
                Some(folder) => name + " (in "@ + (folder + ")"@),
                None => name,
            }
        },
    }
}

/// The names of `list`, with commas between them.
pub open spec fn listed(list: Seq<Recovered>) -> Seq<char>
    decreases list.len(),
{
    if list.len() == 0 {
        Seq::empty()
    } else if list.len() == 1 {
        named(list[0])
    } else {
        listed(list.drop_last()) + ", "@ + named(list.last())
    }
}

/// See [`named`].
fn name_of(d: &Recovered) -> (s: String)
    ensures
        s@ == named(*d),
{
    match &d.path {
        None => "Untitled".to_owned(),
        Some(place) => {
            let name = match file_name(place.as_str()) {
                Some(name) => name,
                None => place.clone(),
            };
            let folder = match parent(place.as_str()) {
                Some(folder) => file_name(folder.as_str()),
                None => None,
            };
            match folder {
                Some(folder) => {
                    let place = joined(folder.as_str(), ")");
                    joined3(name.as_str(), " (in ", place.as_str())
                },
                None => name,
            }
        },
    }
}

/// The part of `list` that is named.
pub open spec fn first_listed(list: Seq<Recovered>) -> Seq<Recovered> {
    if list.len() > LISTED {
        list.take(LISTED as int)
    } else {
        list
    }
}

/// What is said about how many there are beyond those named.
pub open spec fn and_more(n: int) -> Seq<char> {
    if n > LISTED {
        " and "@ + text::decimal_digits((n - LISTED) as nat) + " more"@
    } else {
        ""@
    }
}

/// What is said about how many there are.
pub open spec fn how_many(n: int) -> Seq<char> {
    if n == 1 {
        "Unsaved changes to 1 document were"@
    } else {
        "Unsaved changes to "@ + text::decimal_digits(n as nat) + " documents were"@
    }
}

/// The rest of the prompt.
pub open spec fn choice() -> Seq<char> {
    ". Restoring opens the recovered text as unsaved changes; nothing on disk is overwritten until you save. Discarding deletes the recovered copies."@
}

/// What the prompt says: how many documents, which, and what can be done.
pub open spec fn summary(documents: Seq<Recovered>) -> Seq<char> {
    how_many(documents.len() as int) + " written to disk as the app went down: "@ + (listed(
        first_listed(documents),
    ) + and_more(documents.len() as int) + choice())
}

/// The restore prompt's text: which documents came back, by name and folder,
/// so the choice is about something you can recognise.
pub fn restore_summary(documents: &Vec<Recovered>) -> (s: String)
    ensures
        s@ == summary(documents@),
{
    let n = documents.len();
    let count = if n > LISTED {
        LISTED
    } else {
        n
    };
    let mut list: String = String::new();
    let mut i: usize = 0;
    assert(documents@.take(0) =~= Seq::empty());
    assert(list@ =~= Seq::empty());
    while i < count
        invariant
            i <= count <= documents@.len(),
            list@ == listed(documents@.take(i as int)),
        decreases count - i,
    {
        let ghost now = documents@.take(i + 1);
        assert(now.drop_last() =~= documents@.take(i as int));
        let name = name_of(&documents[i]);
        if i == 0 {
            list = name;
        } else {
            list.append(", ");
            list.append(name.as_str());
        }
        i += 1;
    }
    assert(documents@.take(documents@.len() as int) =~= documents@);
    let more = if n > LISTED {
        joined3(" and ", decimal(n - LISTED).as_str(), " more")
    } else {
        "".to_owned()
    };
    let what = if n == 1 {
        "Unsaved changes to 1 document were".to_owned()
    } else {
        joined3("Unsaved changes to ", decimal(n).as_str(), " documents were")
    };
    let tail = joined3(
        list.as_str(),
        more.as_str(),
        ". Restoring opens the recovered text as unsaved changes; nothing on disk is overwritten until you save. Discarding deletes the recovered copies.",
    );
    joined3(what.as_str(), " written to disk as the app went down: ", tail.as_str())
}

/// Whether a scripted run restores: it says what it would have asked, and
/// takes the answer from outside. Only `discard` is a no.
pub fn ask_to_restore(answer: Option<&str>) -> (r: bool)
    ensures
        r == !(answer matches Some(answer) && answer@ == "discard"@),
{
    match answer {
        Some(answer) => !same(answer, "discard"),
        None => true,
    }
}

/// The question whether to bring back documents that were written out when
/// the app went down. The first button restores.
pub fn restore_question(documents: &Vec<Recovered>) -> (question: Question)
    ensures
        question.message@ == "crc quit unexpectedly."@,
        question.detail@ == summary(documents@),
        path::texts(question.buttons@) == seq!["Restore"@, "Discard"@],
{
    let mut buttons: Vec<String> = Vec::new();
    buttons.push("Restore".to_owned());
    buttons.push("Discard".to_owned());
    assert(path::texts(buttons@) =~= seq!["Restore"@, "Discard"@]);
    Question {
        message: "crc quit unexpectedly.".to_owned(),
        detail: restore_summary(documents),
        buttons,
    }
}

} // verus!
