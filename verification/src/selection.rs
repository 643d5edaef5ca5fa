//! The live state of a field that is completed from suggestions: the text
//! typed so far, the candidates shown for it, and the items that the user
//! has confirmed.

use vstd::prelude::*;
use crate::feeders::Feeder;
use crate::text::{same_text, texts};

verus! {

/// What a `Selection` holds.
pub struct SelectionView {
    /// The text typed so far.
    pub typed: Seq<char>,
    /// The candidates shown for the typed text.
    pub candidates: Seq<Seq<char>>,
    /// The confirmed items, in the order in which they were confirmed.
    pub selected: Seq<Seq<char>>,
    /// The most candidates that are asked for at a time.
    pub page_size: nat,
    /// Whether an item can be confirmed that is not among the candidates.
    pub anything: bool,
    /// Whether an item can be confirmed more than once.
    pub redundant: bool,
}

impl SelectionView {
    /// Whether `item` can be confirmed now: it is among the candidates,
    /// unless anything goes, and it is not confirmed yet, unless an item
    /// may be confirmed more than once.
    pub open spec fn accepts(self, item: Seq<char>) -> bool {
        &&& self.anything || self.candidates.contains(item)
        &&& self.redundant || !self.selected.contains(item)
    }

    /// Whether `item` is the confirmed item at `index` and none before it
    /// is.
    pub open spec fn first_at(self, item: Seq<char>, index: int) -> bool {
        &&& 0 <= index < self.selected.len()
        &&& self.selected[index] == item
        &&& forall|j: int| 0 <= j < index ==> self.selected[j] != item
    }
}

/// The text typed into a field, the candidates for it and the confirmed
/// items.
#[derive(Debug)]
pub struct Selection {
    typed: String,
    candidates: Vec<String>,
    selected: Vec<String>,
    page_size: usize,
    select_anything: bool,
    redundant_selection: bool,
}

impl View for Selection {
    type V = SelectionView;

    closed spec fn view(&self) -> SelectionView {
        SelectionView {
            typed: self.typed@,
            candidates: texts(self.candidates@),
            selected: texts(self.selected@),
            page_size: self.page_size as nat,
            anything: self.select_anything,
            redundant: self.redundant_selection,
        }
    }
}

/// The index of the first of `items` that holds the text `item`.
fn position_of(items: &Vec<String>, item: &str) -> (found: Option<usize>)
    ensures
        match found {
            Some(i) => {
                &&& i < items.len()
                &&& texts(items@)[i as int] == item@
                &&& forall|j: int| 0 <= j < i ==> texts(items@)[j] != item@
            },
            None => !texts(items@).contains(item@),
        },
{
    let mut i: usize = 0;
    while i < items.len()
        invariant
            i <= items.len(),
            forall|j: int| 0 <= j < i ==> texts(items@)[j] != item@,
        decreases items.len() - i,
    {
        if same_text(items[i].as_str(), item) {
            return Some(i);
        }
        i += 1;
    }
    None
}

impl Selection {
    /// A selection with nothing typed, shown or confirmed, which asks for
    /// at most `page_size` candidates, takes candidates only and takes each
    /// only once.
    pub fn new(page_size: usize) -> (selection: Selection)
        ensures
            selection@ == (SelectionView {
                typed: Seq::<char>::empty(),
                candidates: Seq::<Seq<char>>::empty(),
                selected: Seq::<Seq<char>>::empty(),
                page_size: page_size as nat,
                anything: false,
                redundant: false,
            }),
    {
        let selection = Selection {
            typed: String::new(),
            candidates: Vec::new(),
            selected: Vec::new(),
            page_size,
            select_anything: false,
            redundant_selection: false,
        };
        assert(selection@.candidates =~= Seq::<Seq<char>>::empty());
        assert(selection@.selected =~= Seq::<Seq<char>>::empty());
        selection
    }

    /// Lets items be confirmed that are not among the candidates.
    pub fn select_anything(self) -> (selection: Selection)
        ensures
            selection@ == (SelectionView { anything: true, ..self@ }),
    {
        let mut selection = self;
        selection.select_anything = true;
        selection
    }

    /// Lets an item be confirmed more than once.
    pub fn redundant_selection(self) -> (selection: Selection)
        ensures
            selection@ == (SelectionView { redundant: true, ..self@ }),
    {
        let mut selection = self;
        selection.redundant_selection = true;
        selection
    }

    /// The text typed so far.
    pub fn get_typed(&self) -> (typed: &str)
        ensures
            typed@ == self@.typed,
    {
        self.typed.as_str()
    }

    /// The candidates shown for the typed text.
    pub fn get_candidates(&self) -> (candidates: &Vec<String>)
        ensures
            texts(candidates@) == self@.candidates,
    {
        &self.candidates
    }

    /// The confirmed items, in the order in which they were confirmed.
    pub fn get_selected(&self) -> (selected: &Vec<String>)
        ensures
            texts(selected@) == self@.selected,
    {
        &self.selected
    }

    /// Takes `text` as the typed text and `candidates` as what is shown for
    /// it. The confirmed items stay.
    pub fn show(&mut self, text: &str, candidates: Vec<String>)
        ensures
            final(self)@ == (SelectionView {
                typed: text@,
                candidates: texts(candidates@),
                ..old(self)@
            }),
    {
        self.typed = text.to_owned();
        self.candidates = candidates;
    }

    /// Takes `text` as the typed text and asks the feeder for its first
    /// page of candidates, which replaces what was shown. The confirmed
    /// items stay.
    pub fn refresh<F: Feeder>(&mut self, feeder: &F, text: &str)
        ensures
            feeder.answers(text@, 0, old(self)@.page_size, final(self)@.candidates),
            final(self)@.candidates.len() <= old(self)@.page_size,
            final(self)@ == (SelectionView {
                typed: text@,
                candidates: final(self)@.candidates,
                ..old(self)@
            }),
    {
        let candidates = feeder.query(text, 0, self.page_size);
        self.show(text, candidates);
    }

    /// Confirms `item` if it can be confirmed, and says whether it was.
    pub fn select(&mut self, item: &str) -> (accepted: bool)
        ensures
            accepted == old(self)@.accepts(item@),
            final(self)@ == if accepted {
                SelectionView { selected: old(self)@.selected.push(item@), ..old(self)@ }
            } else {
                old(self)@
            },
    {
        let known = self.select_anything || position_of(&self.candidates, item).is_some();
        let fresh = self.redundant_selection || position_of(&self.selected, item).is_none();
        if known && fresh {
            let ghost before = self@.selected;
            self.selected.push(item.to_owned());
            assert(self@.selected =~= before.push(item@));
            true
        } else {
            false
        }
    }

    /// Takes the first confirmation of `item` back, and says whether there
    /// was one.
    pub fn deselect(&mut self, item: &str) -> (removed: bool)
        ensures
            removed == old(self)@.selected.contains(item@),
            removed ==> exists|i: int|
                old(self)@.first_at(item@, i) && final(self)@ == (SelectionView {
                    selected: old(self)@.selected.remove(i),
                    ..old(self)@
                }),
            !removed ==> final(self)@ == old(self)@,
    {
        match position_of(&self.selected, item) {
            Some(i) => {
                let ghost before = self@;
                self.selected.remove(i);
                assert(self@.selected =~= before.selected.remove(i as int));
                assert(before.first_at(item@, i as int));
                true
            },
            None => false,
        }
    }
}

} // verus!
