//! Completion at the caret: what the server and the worker offered, merged
//! and ranked, and which suggestion is picked.

use crate::buffer::Buffer;
use crate::keys::{self, KeyEvent};
use crate::path::{self, file_name, parent};
use crate::state::State;
use crate::text::{self, same};
use vstd::prelude::*;
use vstd::string::*;

verus! {

/// Where a suggestion came from.
#[derive(Clone, Copy, PartialEq, Eq, Structural, Debug)]
pub enum Source {
    Server,
    Symbol,
    History,
    Word,
    Path,
}

/// A suggestion.
pub struct Candidate {
    pub label: String,
    pub insert: String,
    pub source: Source,
    pub why: String,
    /// In thousandths.
    pub weight: u32,
    /// Which of the server's items it is.
    pub server: Option<usize>,
}

/// What makes a suggestion likelier here: it was taken before.
pub struct Boost {
    pub text: String,
    /// In thousandths.
    pub weight: u32,
}

/// What the server offered.
pub struct ServerItem {
    pub label: String,
    /// The text it inserts.
    pub text: String,
    pub detail: Option<String>,
    pub kind: u32,
}

/// The list under the caret.
pub struct CompletionPopup {
    /// The buffer it belongs to; a switch closes it.
    pub buffer: u64,
    /// Where the word (or path segment) being completed starts. The text from
    /// here to the caret is the prefix.
    pub anchor: usize,
    /// The server request whose reply fills `items`; older replies are
    /// ignored. Zero when there is no server.
    pub request: u64,
    /// The worker question whose answer fills `local`.
    pub generation: u64,
    pub items: Vec<ServerItem>,
    pub local: Vec<Candidate>,
    pub boosts: Vec<Boost>,
    /// What is offered, best first.
    pub shown: Vec<Candidate>,
    pub selected: usize,
    /// Picked with the arrows: Return accepts only then. Until you choose,
    /// Return is a new line and Tab takes the suggestion.
    pub chosen: bool,
    /// Completing a path segment rather than a word.
    pub path: bool,
    /// What the history is keyed on.
    pub context: String,
    pub language: String,
}

impl CompletionPopup {
    /// The picked suggestion is one of those shown.
    pub open spec fn wf(&self) -> bool {
        self.shown@.len() > 0 ==> self.selected < self.shown@.len()
    }
}

/// Which suggestion Option and a digit key takes, by key code: the character
/// Option makes depends on the keyboard layout.
pub open spec fn digit_key(code: u16) -> Option<usize> {
    if code == 18 {
        Some(0)
    } else if code == 19 {
        Some(1)
    } else if code == 20 {
        Some(2)
    } else if code == 21 {
        Some(3)
    } else if code == 23 {
        Some(4)
    } else if code == 22 {
        Some(5)
    } else if code == 26 {
        Some(6)
    } else if code == 28 {
        Some(7)
    } else if code == 25 {
        Some(8)
    } else {
        None
    }
}

/// What a key does to the list.
#[derive(Clone, Copy, PartialEq, Eq, Structural, Debug)]
pub enum PopupKey {
    /// Take this suggestion.
    Accept(Option<usize>),
    Close,
    Next,
    Previous,
    /// Return before anything was chosen: the list goes and the key is a new
    /// line, as it would be with no list.
    CloseAndPass,
    /// Not the list's business.
    Pass,
}

/// What a key does to the list.
pub open spec fn popup_key(popup: CompletionPopup, event: KeyEvent) -> PopupKey {
    let code = keys::plain_code(event.code);
    let count = popup.shown@.len();
    if event.flags.command {
        PopupKey::Pass
    } else if event.flags.option && digit_key(code) is Some {
        if digit_key(code)->0 < count {
            PopupKey::Accept(digit_key(code))
        } else {
            PopupKey::Pass
        }
    } else if code == keys::ESCAPE {
        PopupKey::Close
    } else if code == keys::DOWN && count > 0 {
        PopupKey::Next
    } else if code == keys::UP && count > 0 {
        PopupKey::Previous
    } else if code == keys::TAB && count > 0 {
        PopupKey::Accept(None)
    } else if code == keys::RETURN {
        if count > 0 && popup.chosen {
            PopupKey::Accept(None)
        } else {
            PopupKey::CloseAndPass
        }
    } else {
        PopupKey::Pass
    }
}

/// Whether the list keeps the key to itself.
pub open spec fn popup_takes(popup: CompletionPopup, event: KeyEvent) -> bool {
    !(popup_key(popup, event) is Pass) && !(popup_key(popup, event) is CloseAndPass)
}

/// See [`digit_key`].
fn digit_key_of(code: u16) -> (n: Option<usize>)
    ensures
        n == digit_key(code),
{
    match code {
        18 => Some(0),
        19 => Some(1),
        20 => Some(2),
        21 => Some(3),
        23 => Some(4),
        22 => Some(5),
        26 => Some(6),
        28 => Some(7),
        25 => Some(8),
        _ => None,
    }
}

/// See [`popup_key`].
pub fn popup_key_of(popup: &CompletionPopup, event: &KeyEvent) -> (key: PopupKey)
    ensures
        key == popup_key(*popup, *event),
{
    let code = keys::code_of(event);
    let count = popup.shown.len();
    if event.flags.command {
        return PopupKey::Pass;
    }
    if event.flags.option {
        if let Some(n) = digit_key_of(code) {
            return if n < count {
                PopupKey::Accept(Some(n))
            } else {
                PopupKey::Pass
            };
        }
    }
    if code == keys::ESCAPE {
        PopupKey::Close
    } else if code == keys::DOWN && count > 0 {
        PopupKey::Next
    } else if code == keys::UP && count > 0 {
        PopupKey::Previous
    } else if code == keys::TAB && count > 0 {
        PopupKey::Accept(None)
    } else if code == keys::RETURN {
        if count > 0 && popup.chosen {
            PopupKey::Accept(None)
        } else {
            PopupKey::CloseAndPass
        }
    } else {
        PopupKey::Pass
    }
}

/// See [`popup_takes`].
pub fn takes_popup_key(popup: &CompletionPopup, event: &KeyEvent) -> (r: bool)
    ensures
        r == popup_takes(*popup, *event),
{
    match popup_key_of(popup, event) {
        PopupKey::Pass | PopupKey::CloseAndPass => false,
        _ => true,
    }
}

/// The weight of the server's suggestion `index`, in thousandths: the server's
/// own order, gently.
pub open spec fn server_weight(index: int) -> int {
    if index * 2 < 500 {
        1000 - index * 2
    } else {
        500
    }
}

/// The server's suggestion `index` as a candidate.
pub open spec fn is_offered(c: Candidate, item: ServerItem, index: int) -> bool {
    &&& c.label == item.label
    &&& c.insert == item.text
    &&& c.source is Server
    &&& c.why@ == (match item.detail {
        Some(detail) => detail@,
        None => Seq::empty(),
    })
    &&& c.weight == server_weight(index)
    &&& c.server == Some(index as usize)
}

/// The same suggestion.
pub open spec fn same_candidate(a: Candidate, b: Candidate) -> bool {
    &&& a.label == b.label
    &&& a.insert == b.insert
    &&& a.source == b.source
    &&& a.why == b.why
    &&& a.weight == b.weight
    &&& a.server == b.server
}

/// A copy of a suggestion.
pub fn copy_candidate(c: &Candidate) -> (copy: Candidate)
    ensures
        same_candidate(copy, *c),
{
    Candidate {
        label: c.label.clone(),
        insert: c.insert.clone(),
        source: c.source,
        why: c.why.clone(),
        weight: c.weight,
        server: c.server,
    }
}

/// The first of `list` labelled `label`.
pub open spec fn first_labelled(list: Seq<Candidate>, label: Seq<char>) -> Option<int>
    decreases list.len(),
{
    if list.len() == 0 {
        None
    } else {
        match first_labelled(list.drop_last(), label) {
            Some(i) => Some(i),
            None => if list.last().label@ == label {
                Some(list.len() - 1)
            } else {
                None
            },
        }
    }
}

/// What [`first_labelled`] finds.
pub proof fn first_labelled_is_first(list: Seq<Candidate>, label: Seq<char>)
    ensures
        match first_labelled(list, label) {
            Some(i) => 0 <= i < list.len() && list[i].label@ == label && forall|j: int|
                0 <= j < i ==> (#[trigger] list[j]).label@ != label,
            None => forall|j: int| 0 <= j < list.len() ==> (#[trigger] list[j]).label@ != label,
        },
    decreases list.len(),
{
    if list.len() > 0 {
        let head = list.drop_last();
        first_labelled_is_first(head, label);
        assert(forall|j: int| 0 <= j < head.len() ==> head[j] == list[j]);
    }
}

/// See [`first_labelled`].
fn find_labelled(list: &Vec<Candidate>, label: &str) -> (at: Option<usize>)
    ensures
        match (at, first_labelled(list@, label@)) {
            (Some(i), Some(j)) => i == j && i < list@.len(),
            (None, None) => true,
            _ => false,
        },
{
    let mut found: Option<usize> = None;
    let mut i: usize = 0;
    assert(list@.take(0) =~= Seq::empty());
    while i < list.len()
        invariant
            i <= list@.len(),
            match (found, first_labelled(list@.take(i as int), label@)) {
                (Some(a), Some(b)) => a == b && a < i,
                (None, None) => true,
                _ => false,
            },
        decreases list@.len() - i,
    {
        assert(list@.take(i + 1).drop_last() =~= list@.take(i as int));
        if found.is_none() && same(list[i].label.as_str(), label) {
            found = Some(i);
        }
        i += 1;
    }
    assert(list@.take(list@.len() as int) =~= list@);
    found
}

impl CompletionPopup {
    /// Everything on offer, for ranking: the server's suggestions, then what
    /// was found here.
    pub fn candidates(&self) -> (all: Vec<Candidate>)
        ensures
            all@.len() == self.items@.len() + self.local@.len(),
            forall|i: int|
                0 <= i < self.items@.len() ==> is_offered(#[trigger] all@[i], self.items@[i], i),
            forall|i: int|
                0 <= i < self.local@.len() ==> same_candidate(
                    #[trigger] all@[self.items@.len() + i],
                    self.local@[i],
                ),
    {
        let mut all: Vec<Candidate> = Vec::new();
        let mut i: usize = 0;
        while i < self.items.len()
            invariant
                i <= self.items@.len(),
                all@.len() == i,
                forall|j: int|
                    0 <= j < i ==> is_offered(#[trigger] all@[j], self.items@[j], j),
            decreases self.items@.len() - i,
        {
            let item = &self.items[i];
            let weight: u32 = if i < 250 {
                1000 - 2 * (i as u32)
            } else {
                500
            };
            let why = match &item.detail {
                Some(detail) => detail.clone(),
                None => String::new(),
            };
            let offered = Candidate {
                label: item.label.clone(),
                insert: item.text.clone(),
                source: Source::Server,
                why,
                weight,
                server: Some(i),
            };
            assert(is_offered(offered, self.items@[i as int], i as int));
            all.push(offered);
            i += 1;
        }
        let mut k: usize = 0;
        let n = self.items.len();
        while k < self.local.len()
            invariant
                n == self.items@.len(),
                k <= self.local@.len(),
                all@.len() == n + k,
                forall|j: int|
                    0 <= j < n ==> is_offered(#[trigger] all@[j], self.items@[j], j),
                forall|j: int|
                    0 <= j < k ==> same_candidate(#[trigger] all@[n + j], self.local@[j]),
            decreases self.local@.len() - k,
        {
            let copy = copy_candidate(&self.local[k]);
            all.push(copy);
            k += 1;
        }
        all
    }

    /// The label of the pick.
    pub open spec fn picked(&self) -> Option<Seq<char>> {
        if self.selected < self.shown@.len() {
            Some(self.shown@[self.selected as int].label@)
        } else {
            None
        }
    }

    /// Where the pick goes when `ranked` is shown instead: it is kept when it
    /// was chosen and is still there, otherwise the best is picked.
    pub open spec fn pick_in(&self, ranked: Seq<Candidate>) -> int {
        match self.picked() {
            Some(label) => if self.chosen && first_labelled(ranked, label) is Some {
                first_labelled(ranked, label)->0
            } else {
                0
            },
            None => 0,
        }
    }

    /// This is `before` offering `ranked`.
    pub open spec fn offers(&self, before: CompletionPopup, ranked: Vec<Candidate>) -> bool {
        *self == (CompletionPopup {
            shown: ranked,
            selected: before.pick_in(ranked@) as usize,
            ..before
        })
    }

    /// Offers `ranked`, the candidates ranked against what is typed.
    pub fn refilter(&mut self, ranked: Vec<Candidate>)
        ensures
            final(self).wf(),
            final(self).offers(*old(self), ranked),
    {
        proof {
            if let Some(label) = self.picked() {
                first_labelled_is_first(ranked@, label);
            }
        }
        let mut selected: usize = 0;
        if self.selected < self.shown.len() && self.chosen {
            if let Some(at) = find_labelled(&ranked, self.shown[self.selected].label.as_str()) {
                selected = at;
            }
        }
        self.shown = ranked;
        self.selected = selected;
    }
}

/// A pick made with the arrows stays picked as long as it is offered.
pub proof fn a_chosen_suggestion_stays_picked(popup: CompletionPopup, ranked: Vec<Candidate>, i: int)
    requires
        popup.chosen,
        popup.picked() is Some,
        0 <= i < ranked@.len(),
        ranked@[i].label@ == popup.picked()->0,
    ensures
        forall|after: CompletionPopup|
            #![trigger after.offers(popup, ranked)]
            after.offers(popup, ranked) ==> after.picked() == popup.picked(),
{
    let n = ranked.len();
    first_labelled_is_first(ranked@, popup.picked()->0);
}

/// What completion history and the index are kept per: the project, or the
/// file's folder when there is none.
pub open spec fn key_of(s: State) -> Option<Seq<char>> {
    match s.side.tree.root {
        Some(root) => Some(root@),
        None => match s.pane.docs.front().path {
            Some(place) => path::parent_of(place@),
            None => None,
        },
    }
}

/// See [`key_of`].
pub fn project_key(s: &State) -> (key: Option<String>)
    requires
        s.wf(),
    ensures
        match (key, key_of(*s)) {
            (Some(key), Some(text)) => key@ == text,
            (None, None) => true,
            _ => false,
        },
{
    match &s.side.tree.root {
        Some(root) => Some(root.clone()),
        None => match &s.pane.docs.active().path {
            Some(place) => parent(place.as_str()),
            None => None,
        },
    }
}

/// The history's language key: the extension, or the name of a file that has
/// none.
pub open spec fn language_key(b: Buffer) -> Seq<char> {
    match b.extension {
        Some(extension) => extension@,
        None => match b.path {
            Some(place) => match path::file_name_of(place@) {
                Some(name) => name,
                None => Seq::empty(),
            },
            None => Seq::empty(),
        },
    }
}

/// See [`language_key`].
pub fn completion_language(b: &Buffer) -> (key: String)
    ensures
        key@ == language_key(*b),
{
    match &b.extension {
        Some(extension) => extension.clone(),
        None => match &b.path {
            Some(place) => match file_name(place.as_str()) {
                Some(name) => name,
                None => String::new(),
            },
            None => String::new(),
        },
    }
}

/// A suggestion's icon: what it is when that is known, otherwise where it
/// came from.
pub enum Icon {
    /// The icon of a server's kind of symbol.
    ServerKind(u32),
    Variable,
    /// The icon of a kind of symbol, by its name.
    SymbolKind(String),
    History,
    Text,
    FolderOutline,
    File,
}

/// The text up to the first space.
pub open spec fn first_word(s: Seq<char>) -> Seq<char>
    decreases s.len(),
{
    if s.len() == 0 || s[0] == ' ' {
        Seq::empty()
    } else {
        seq![s[0]] + first_word(s.drop_first())
    }
}

/// See [`first_word`].
fn word_at_start(s: &str) -> (word: String)
    ensures
        word@ == first_word(s@),
{
    let chars = text::chars_of(s);
    let mut i: usize = 0;
    let ghost whole = chars@;
    assert(whole.skip(0) =~= whole);
    assert(first_word(whole) =~= whole.take(0) + first_word(whole.skip(0)));
    while i < chars.len() && chars[i] != ' '
        invariant
            whole == chars@,
            i <= whole.len(),
            first_word(whole) == whole.take(i as int) + first_word(whole.skip(i as int)),
        decreases whole.len() - i,
    {
        proof {
            assert(whole.skip(i as int).drop_first() =~= whole.skip(i + 1));
            assert(whole.take(i + 1) =~= whole.take(i as int) + seq![whole[i as int]]);
            assert(first_word(whole) =~= whole.take(i + 1) + first_word(whole.skip(i + 1)));
        }
        i += 1;
    }
    assert(first_word(whole) =~= whole.take(i as int));
    let word = text::text_of_chars(&chars, 0, i);
    assert(whole.subrange(0, i as int) =~= whole.take(i as int));
    word
}

/// Whether a text ends in a slash.
pub open spec fn ends_in_slash(s: Seq<char>) -> bool {
    s.len() > 0 && s.last() == '/'
}

/// Whether `s` ends in a slash.
pub fn slash_ends(s: &str) -> (r: bool)
    ensures
        r == ends_in_slash(s@),
{
    let chars = text::chars_of(s);
    chars.len() > 0 && chars[chars.len() - 1] == '/'
}

/// Whether `icon` is that of `candidate`, one of those offered with `items`.
pub open spec fn is_icon(icon: Icon, candidate: Candidate, items: Seq<ServerItem>) -> bool {
    match candidate.source {
        Source::Server => match candidate.server {
            Some(i) => if i < items.len() {
                icon == Icon::ServerKind(items[i as int].kind)
            } else {
                icon is Variable
            },
            None => icon is Variable,
        },
        Source::Symbol => icon matches Icon::SymbolKind(name) && name@ == first_word(
            candidate.why@,
        ),
        Source::History => icon is History,
        Source::Word => icon is Text,
        Source::Path => if ends_in_slash(candidate.insert@) {
            icon is FolderOutline
        } else {
            icon is File
        },
    }
}

/// See [`is_icon`].
pub fn completion_icon(candidate: &Candidate, items: &Vec<ServerItem>) -> (icon: Icon)
    ensures
        is_icon(icon, *candidate, items@),
{
    match candidate.source {
        Source::Server => match candidate.server {
            Some(i) => if i < items.len() {
                Icon::ServerKind(items[i].kind)
            } else {
                Icon::Variable
            },
            None => Icon::Variable,
        },
        Source::Symbol => Icon::SymbolKind(word_at_start(candidate.why.as_str())),
        Source::History => Icon::History,
        Source::Word => Icon::Text,
        Source::Path => if slash_ends(candidate.insert.as_str()) {
            Icon::FolderOutline
        } else {
            Icon::File
        },
    }
}

} // verus!
