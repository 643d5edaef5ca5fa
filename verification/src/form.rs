//! The form: an ordered list of fields that is validated as a whole and
//! resolves to one structured value or to the errors of the fields that
//! failed.
//!
//! The form takes no input itself. Whoever shows it hands over what the
//! user did, as a `FormEvent` and the `Focus` at that moment, and acts on the
//! `Reaction` that comes back.

use vstd::prelude::*;
use vstd::hash_map::StringHashMap;
use crate::disk::is_on_disk;
use crate::fields::{Field, FieldView};
use crate::json::{new_object, no_fields, object_fields, put};
use crate::text::{same_text, texts};
use crate::validators::AnswerView;

verus! {

/// The structured value of a form: a JSON object with the validated value
/// of each field under the field's label.
pub type FormData = serde_json::Map<String, serde_json::Value>;

/// The errors of one field: why its text was refused.
pub type FieldErrors = Vec<String>;

/// The errors of a form: under the label of each field that failed, the
/// errors of that field. Of two failing fields with one label the later
/// one is kept.
pub type FormErrors = StringHashMap<FieldErrors>;

/// What the errors of a form hold: each label with the messages under it.
pub open spec fn error_texts(errors: FormErrors) -> Map<Seq<char>, Seq<Seq<char>>> {
    errors@.map_values(|messages: Vec<String>| texts(messages@))
}

/// What a form is made of.
pub struct FormContent {
    /// The title that stands on top of the form.
    pub title: Seq<char>,
    /// The fields, in the order in which they were added.
    pub fields: Seq<FieldView>,
}

/// Whether the file system said of the text of field `i` that it is the
/// path of an existing entry. A field of which nothing was said counts as
/// not on disk.
pub open spec fn fact_at(facts: Seq<bool>, i: int) -> bool {
    0 <= i < facts.len() && facts[i]
}

/// What validation makes of field `i` and the text it holds.
pub open spec fn verdict_at(fields: Seq<FieldView>, facts: Seq<bool>, i: int) -> Result<
    AnswerView,
    Seq<Seq<char>>,
> {
    fields[i].verdict(fields[i].value, fact_at(facts, i))
}

/// The values of the first `n` fields that are accepted, each under the
/// label of its field. Of two accepted fields with one label the later one
/// is kept.
pub open spec fn answers(fields: Seq<FieldView>, facts: Seq<bool>, n: nat) -> Map<
    Seq<char>,
    AnswerView,
>
    decreases n,
{
    if n == 0 {
        no_fields()
    } else {
        let before = answers(fields, facts, (n - 1) as nat);
        match verdict_at(fields, facts, n - 1) {
            Ok(answer) => before.insert(fields[n - 1].label, answer),
            Err(_) => before,
        }
    }
}

/// The errors of the first `n` fields: the messages of each field that
/// fails, under the label of the field. Of two failing fields with one
/// label the later one is kept.
pub open spec fn complaints(fields: Seq<FieldView>, facts: Seq<bool>, n: nat) -> Map<
    Seq<char>,
    Seq<Seq<char>>,
>
    decreases n,
{
    if n == 0 {
        Map::empty()
    } else {
        let before = complaints(fields, facts, (n - 1) as nat);
        match verdict_at(fields, facts, n - 1) {
            Ok(_) => before,
            Err(messages) => before.insert(fields[n - 1].label, messages),
        }
    }
}

/// What validation makes of the form: the values of all fields where every
/// field is accepted, and else the errors of the fields that failed.
pub open spec fn form_verdict(fields: Seq<FieldView>, facts: Seq<bool>) -> Result<
    Map<Seq<char>, AnswerView>,
    Map<Seq<char>, Seq<Seq<char>>>,
> {
    let failed = complaints(fields, facts, fields.len());
    if failed.is_empty() {
        Ok(answers(fields, facts, fields.len()))
    } else {
        Err(failed)
    }
}

/// Whether one of the first `n` fields bears `label` and fails.
pub open spec fn fails_under(fields: Seq<FieldView>, facts: Seq<bool>, n: nat, label: Seq<char>) -> bool {
    exists|i: int|
        0 <= i < n && fields[i].label == label && (#[trigger] verdict_at(fields, facts, i)) is Err
}

/// Whether `entry` holds the label and the messages of one of the first
/// `n` fields, and that field fails.
pub open spec fn failed_among(
    fields: Seq<FieldView>,
    facts: Seq<bool>,
    n: nat,
    entry: (Seq<char>, Seq<Seq<char>>),
) -> bool {
    exists|i: int|
        0 <= i < n && fields[i].label == entry.0 && #[trigger] verdict_at(fields, facts, i)
            == Err::<AnswerView, Seq<Seq<char>>>(entry.1)
}

/// The labels of the fields.
pub open spec fn labels(fields: Seq<FieldView>) -> Set<Seq<char>> {
    Set::new(|label: Seq<char>| exists|i: int| 0 <= i < fields.len() && fields[i].label == label)
}

/// Whether one of the fields has a rule that asks the file system.
pub open spec fn reads_disk(fields: Seq<FieldView>) -> bool {
    exists|i: int| 0 <= i < fields.len() && (#[trigger] fields[i]).reads_disk()
}

/// What a result of a form's validation holds.
pub open spec fn form_outcome(result: Result<FormData, FormErrors>) -> Result<
    Map<Seq<char>, AnswerView>,
    Map<Seq<char>, Seq<Seq<char>>>,
> {
    match result {
        Ok(data) => Ok(object_fields(data)),
        Err(errors) => Err(error_texts(errors)),
    }
}

/// Validation never ends half way. It gives either the values, and then
/// every field is accepted and there is a value under the label of each
/// field and under nothing else; or the errors, and then at least one field
/// failed, there are errors under the label of each field that failed and
/// under no other label, and what stands under a label are the messages of
/// a failing field that bears it.
pub proof fn lemma_validation_is_total(fields: Seq<FieldView>, facts: Seq<bool>)
    ensures
        match form_verdict(fields, facts) {
            Ok(data) => {
                &&& data.dom() == labels(fields)
                &&& forall|i: int| 0 <= i < fields.len() ==> verdict_at(fields, facts, i) is Ok
            },
            Err(errors) => {
                &&& exists|i: int|
                    0 <= i < fields.len() && verdict_at(fields, facts, i) is Err
                        && errors.dom().contains(fields[i].label)
                &&& forall|label: Seq<char>| #[trigger]
                    errors.dom().contains(label) <==> fails_under(
                        fields,
                        facts,
                        fields.len(),
                        label,
                    )
                &&& forall|label: Seq<char>| #[trigger]
                    errors.dom().contains(label) ==> labels(fields).contains(label)
                        && failed_among(fields, facts, fields.len(), (label, errors[label]))
            },
        },
{
    lemma_complaints(fields, facts, fields.len());
    lemma_answers(fields, facts, fields.len());
    let errors = complaints(fields, facts, fields.len());
    if errors.is_empty() {
        assert(answers(fields, facts, fields.len()).dom() =~= labels(fields));
    } else {
        let i = choose|i: int| 0 <= i < fields.len() && !(verdict_at(fields, facts, i) is Ok);
        assert(fails_under(fields, facts, fields.len(), fields[i].label));
        assert forall|label: Seq<char>| #[trigger] errors.dom().contains(label) implies labels(
            fields,
        ).contains(label) by {
            assert(fails_under(fields, facts, fields.len(), label));
        }
    }
}

/// Whether no two fields have one label.
pub open spec fn distinct_labels(fields: Seq<FieldView>) -> bool {
    forall|i: int, j: int| 0 <= i < j < fields.len() ==> fields[i].label != fields[j].label
}

/// Where no two fields have one label, the values of a form that is
/// accepted are exactly as many as the form has fields: one for each.
pub proof fn lemma_one_value_per_field(fields: Seq<FieldView>, facts: Seq<bool>)
    requires
        distinct_labels(fields),
        form_verdict(fields, facts) is Ok,
    ensures
        form_verdict(fields, facts)->Ok_0.dom().finite(),
        form_verdict(fields, facts)->Ok_0.dom().len() == fields.len(),
{
    lemma_complaints(fields, facts, fields.len());
    lemma_count_answers(fields, facts, fields.len());
}

proof fn lemma_count_answers(fields: Seq<FieldView>, facts: Seq<bool>, n: nat)
    requires
        n <= fields.len(),
        distinct_labels(fields),
        forall|i: int| 0 <= i < n ==> verdict_at(fields, facts, i) is Ok,
    ensures
        answers(fields, facts, n).dom().finite(),
        answers(fields, facts, n).dom().len() == n,
    decreases n,
{
    if n > 0 {
        let m = (n - 1) as nat;
        lemma_count_answers(fields, facts, m);
        lemma_answers(fields, facts, m);
        let before = answers(fields, facts, m);
        let label = fields[n - 1].label;
        if before.dom().contains(label) {
            let i = choose|i: int| 0 <= i < m && #[trigger] fields[i].label == label;
            assert(fields[i].label != fields[n - 1].label);
        }
        assert(verdict_at(fields, facts, n - 1) is Ok);
        assert(answers(fields, facts, n).dom() =~= before.dom().insert(label));
    }
}

/// The errors hold an entry under the label of each field that failed and
/// under no other, each entry with the messages of a failing field of that
/// label; they hold nothing exactly where every field is accepted.
proof fn lemma_complaints(fields: Seq<FieldView>, facts: Seq<bool>, n: nat)
    requires
        n <= fields.len(),
    ensures
        complaints(fields, facts, n).is_empty() <==> forall|i: int|
            0 <= i < n ==> verdict_at(fields, facts, i) is Ok,
        forall|label: Seq<char>| #[trigger]
            complaints(fields, facts, n).dom().contains(label) <==> fails_under(
                fields,
                facts,
                n,
                label,
            ),
        forall|label: Seq<char>| #[trigger]
            complaints(fields, facts, n).dom().contains(label) ==> failed_among(
                fields,
                facts,
                n,
                (label, complaints(fields, facts, n)[label]),
            ),
    decreases n,
{
    if n > 0 {
        let m = (n - 1) as nat;
        lemma_complaints(fields, facts, m);
        let before = complaints(fields, facts, m);
        let now = complaints(fields, facts, n);
        let last = fields[n - 1].label;
        assert forall|label: Seq<char>| #[trigger] now.dom().contains(label) <==> fails_under(
            fields,
            facts,
            n,
            label,
        ) by {
            if now.dom().contains(label) {
                if before.dom().contains(label) {
                    assert(fails_under(fields, facts, m, label));
                    let i = choose|i: int|
                        0 <= i < m && fields[i].label == label && (#[trigger] verdict_at(
                            fields,
                            facts,
                            i,
                        )) is Err;
                    assert(0 <= i < n);
                } else {
                    assert(label == last && verdict_at(fields, facts, n - 1) is Err);
                }
            }
            if fails_under(fields, facts, n, label) {
                let i = choose|i: int|
                    0 <= i < n && fields[i].label == label && (#[trigger] verdict_at(
                        fields,
                        facts,
                        i,
                    )) is Err;
                if i < m {
                    assert(fails_under(fields, facts, m, label));
                }
            }
        }
        assert forall|label: Seq<char>| #[trigger] now.dom().contains(label) implies failed_among(
            fields,
            facts,
            n,
            (label, now[label]),
        ) by {
            if verdict_at(fields, facts, n - 1) is Err && label == last {
                assert(now[label] == verdict_at(fields, facts, n - 1)->Err_0);
            } else {
                assert(before.dom().contains(label));
                assert(now[label] == before[label]);
                assert(failed_among(fields, facts, m, (label, before[label])));
            }
        }
        if now.is_empty() {
            assert(!now.dom().contains(last));
            assert(verdict_at(fields, facts, n - 1) is Ok);
            assert(before.is_empty());
        }
        if forall|i: int| 0 <= i < n ==> verdict_at(fields, facts, i) is Ok {
            assert(verdict_at(fields, facts, n - 1) is Ok);
            assert(before.is_empty());
        }
    }
}

/// Where no field fails, the values have an entry under the label of each
/// field and under nothing else.
proof fn lemma_answers(fields: Seq<FieldView>, facts: Seq<bool>, n: nat)
    requires
        n <= fields.len(),
    ensures
        forall|label: Seq<char>|
            answers(fields, facts, n).dom().contains(label) ==> exists|i: int|
                0 <= i < n && #[trigger] fields[i].label == label,
        forall|i: int|
            0 <= i < n && verdict_at(fields, facts, i) is Ok ==> answers(
                fields,
                facts,
                n,
            ).dom().contains(#[trigger] fields[i].label),
    decreases n,
{
    if n > 0 {
        let m = (n - 1) as nat;
        lemma_answers(fields, facts, m);
        let before = answers(fields, facts, m);
        let now = answers(fields, facts, n);
        assert forall|label: Seq<char>| now.dom().contains(label) implies exists|i: int|
            0 <= i < n && #[trigger] fields[i].label == label by {
            if before.dom().contains(label) {
                let i = choose|i: int| 0 <= i < m && #[trigger] fields[i].label == label;
                assert(0 <= i < n);
            } else {
                assert(fields[n - 1].label == label);
            }
        }
    }
}

/// Where no field asks the file system, the verdict does not depend on
/// what the file system said.
pub proof fn lemma_verdict_without_disk(fields: Seq<FieldView>, some: Seq<bool>, other: Seq<bool>)
    requires
        !reads_disk(fields),
    ensures
        form_verdict(fields, some) == form_verdict(fields, other),
{
    lemma_same_verdicts(fields, some, other, fields.len());
}

proof fn lemma_same_verdicts(fields: Seq<FieldView>, some: Seq<bool>, other: Seq<bool>, n: nat)
    requires
        n <= fields.len(),
        !reads_disk(fields),
    ensures
        answers(fields, some, n) == answers(fields, other, n),
        complaints(fields, some, n) == complaints(fields, other, n),
    decreases n,
{
    if n > 0 {
        lemma_same_verdicts(fields, some, other, (n - 1) as nat);
        let field = fields[n - 1];
        assert(!field.reads_disk());
        crate::fields::lemma_verdict_without_disk(field, field.value);
    }
}

/// A list of fields that is validated as a whole.
#[derive(Debug)]
pub struct FormView {
    title: String,
    fields: Vec<Field>,
}

impl View for FormView {
    type V = FormContent;

    closed spec fn view(&self) -> FormContent {
        FormContent { title: self.title@, fields: self.fields@.map_values(|f: Field| f@) }
    }
}

impl FormView {
    /// A form without a title and without fields.
    pub fn new() -> (form: FormView)
        ensures
            form@ == (FormContent {
                title: Seq::<char>::empty(),
                fields: Seq::<FieldView>::empty(),
            }),
    {
        let form = FormView { title: String::new(), fields: Vec::new() };
        assert(form@.fields =~= Seq::<FieldView>::empty());
        form
    }

    /// Appends `field` to the list of fields.
    pub fn field(self, field: Field) -> (form: FormView)
        ensures
            form@ == (FormContent { fields: self@.fields.push(field@), ..self@ }),
    {
        let mut form = self;
        form.fields.push(field);
        assert(form@.fields =~= self@.fields.push(field@));
        form
    }

    /// Sets the title that stands on top of the form.
    pub fn title(self, title: &str) -> (form: FormView)
        ensures
            form@ == (FormContent { title: title@, ..self@ }),
    {
        let mut form = self;
        form.title = title.to_owned();
        form
    }

    /// The title that stands on top of the form.
    pub fn get_title(&self) -> (title: &str)
        ensures
            title@ == self@.title,
    {
        self.title.as_str()
    }

    /// How many fields the form has.
    pub fn field_count(&self) -> (count: usize)
        ensures
            count == self@.fields.len(),
    {
        self.fields.len()
    }

    /// Whether a field of the form has this label.
    pub fn has_label(&self, label: &str) -> (found: bool)
        ensures
            found == labels(self@.fields).contains(label@),
    {
        let mut i: usize = 0;
        while i < self.fields.len()
            invariant
                i <= self.fields.len(),
                self.fields.len() == self@.fields.len(),
                forall|j: int| 0 <= j < i ==> self@.fields[j].label != label@,
            decreases self.fields.len() - i,
        {
            if same_text(self.fields[i].get_label(), label) {
                assert(self@.fields[i as int].label == label@);
                return true;
            }
            i += 1;
        }
        false
    }

    /// The `index`-th field, in the order in which the fields were added.
    pub fn get_field(&self, index: usize) -> (field: &Field)
        requires
            index < self@.fields.len(),
        ensures
            field@ == self@.fields[index as int],
    {
        &self.fields[index]
    }

    /// Replaces the raw text that the `index`-th field holds. Nothing
    /// changes where the form has no such field.
    pub fn set_value(&mut self, index: usize, raw: &str)
        ensures
            final(self)@ == if index < old(self)@.fields.len() {
                FormContent {
                    fields: old(self)@.fields.update(
                        index as int,
                        FieldView { value: raw@, ..old(self)@.fields[index as int] },
                    ),
                    ..old(self)@
                }
            } else {
                old(self)@
            },
    {
        if index < self.fields.len() {
            let ghost before = self@;
            self.fields[index].set_value(raw);
            assert(self@.fields =~= before.fields.update(
                index as int,
                FieldView { value: raw@, ..before.fields[index as int] },
            ));
        }
    }

    /// Whether one of the fields has a rule that asks the file system.
    pub fn needs_disk(&self) -> (needed: bool)
        ensures
            needed == reads_disk(self@.fields),
    {
        let mut i: usize = 0;
        while i < self.fields.len()
            invariant
                i <= self.fields.len(),
                forall|j: int| 0 <= j < i ==> !(#[trigger] self@.fields[j]).reads_disk(),
            decreases self.fields.len() - i,
        {
            if self.fields[i].needs_disk() {
                assert(self@.fields[i as int].reads_disk());
                return true;
            }
            i += 1;
        }
        false
    }

    /// Asks the file system, for each field with a rule that needs it,
    /// whether the text of the field is the path of an existing entry.
    /// Fields without such a rule are not asked about and count as not on
    /// disk.
    pub fn probe(&self) -> (facts: Vec<bool>)
        ensures
            facts.len() == self@.fields.len(),
            forall|i: int|
                0 <= i < facts.len() && !(#[trigger] self@.fields[i]).reads_disk() ==> !facts[i],
    {
        let mut facts: Vec<bool> = Vec::new();
        let mut i: usize = 0;
        while i < self.fields.len()
            invariant
                i <= self.fields.len(),
                facts.len() == i,
                self.fields.len() == self@.fields.len(),
                forall|j: int| 0 <= j < i && !(#[trigger] self@.fields[j]).reads_disk() ==> !facts[j],
            decreases self.fields.len() - i,
        {
            let field = &self.fields[i];
            let on_disk = if field.needs_disk() {
                is_on_disk(field.get_value())
            } else {
                false
            };
            facts.push(on_disk);
            i += 1;
        }
        facts
    }

    /// Validates the form against what the file system said: `facts[i]`
    /// tells whether the text of field `i` is the path of an existing
    /// entry.
    pub fn check(&self, facts: &Vec<bool>) -> (result: Result<FormData, FormErrors>)
        ensures
            form_outcome(result) == form_verdict(self@.fields, facts@),
    {
        let mut data = new_object();
        let mut errors: FormErrors = StringHashMap::new();
        let mut i: usize = 0;
        assert(error_texts(errors) =~= complaints(self@.fields, facts@, 0));
        while i < self.fields.len()
            invariant
                i <= self.fields.len(),
                self.fields.len() == self@.fields.len(),
                object_fields(data) == answers(self@.fields, facts@, i as nat),
                error_texts(errors) == complaints(self@.fields, facts@, i as nat),
            decreases self.fields.len() - i,
        {
            let field = &self.fields[i];
            let on_disk = i < facts.len() && facts[i];
            assert(field@ == self@.fields[i as int]);
            let ghost before = error_texts(errors);
            match field.check(field.get_value(), on_disk) {
                Ok(answer) => {
                    put(&mut data, field.get_label().to_owned(), answer);
                },
                Err(messages) => {
                    let ghost refused = texts(messages@);
                    errors.insert(field.get_label().to_owned(), messages);
                    assert(error_texts(errors) =~= before.insert(field@.label, refused));
                },
            }
            i += 1;
        }
        assert(errors@.is_empty() == error_texts(errors).is_empty()) by {
            assert(errors@.dom() =~= error_texts(errors).dom());
        }
        if errors.is_empty() {
            Ok(data)
        } else {
            Err(errors)
        }
    }

    /// Validates the form. The file system is asked about the fields whose
    /// rules need it, and the result is the verdict for its answers.
    pub fn validate(&self) -> (result: Result<FormData, FormErrors>)
        ensures
            exists|facts: Seq<bool>| form_outcome(result) == form_verdict(self@.fields, facts),
            !reads_disk(self@.fields) ==> form_outcome(result) == form_verdict(
                self@.fields,
                Seq::<bool>::empty(),
            ),
    {
        let facts = self.probe();
        let result = self.check(&facts);
        proof {
            if !reads_disk(self@.fields) {
                lemma_verdict_without_disk(self@.fields, facts@, Seq::<bool>::empty());
            }
        }
        result
    }
}

/// What the user did, as far as a form tells input events apart.
#[derive(Clone, Copy, Debug, PartialEq, Eq, Structural)]
pub enum FormEvent {
    /// The left mouse button was pressed. The focus handed over with it is
    /// the one that the press left behind.
    LeftPress,
    /// The Enter key.
    Enter,
    /// A character typed with the Ctrl key held down.
    CtrlChar(char),
    /// Anything else.
    Other,
}

/// What has the focus within a form.
#[derive(Clone, Copy, Debug, PartialEq, Eq, Structural)]
pub enum Focus {
    /// The button that cancels.
    CancelButton,
    /// The button that submits.
    SubmitButton,
    /// One of the fields.
    Content,
}

/// What the user wants of the form as a whole.
#[derive(Clone, Copy, Debug, PartialEq, Eq, Structural)]
pub enum Intent {
    /// Validate the form and hand over its value.
    Submit,
    /// Leave the form.
    Cancel,
}

/// Where a form stands in its session.
#[derive(Clone, Copy, Debug, PartialEq, Eq, Structural)]
pub enum FormState {
    /// The user is filling in the fields.
    Editing,
    /// The form was submitted and its value handed over. The session is
    /// over.
    Submitted,
    /// The form was cancelled. The session is over.
    Cancelled,
}

/// What whoever shows the form has to do after an intent.
pub enum Reaction {
    /// Call what was registered for a submit, with this value.
    Submit(FormData),
    /// Show these errors next to their fields; the user goes on editing.
    Complain(FormErrors),
    /// Call what was registered for a cancel.
    Cancel,
    /// Nothing: the session was over before.
    Nothing,
}

/// What a `Reaction` holds.
pub enum ReactionView {
    Submit(Map<Seq<char>, AnswerView>),
    Complain(Map<Seq<char>, Seq<Seq<char>>>),
    Cancel,
    Nothing,
}

impl View for Reaction {
    type V = ReactionView;

    open spec fn view(&self) -> ReactionView {
        match self {
            Reaction::Submit(data) => ReactionView::Submit(object_fields(*data)),
            Reaction::Complain(errors) => ReactionView::Complain(error_texts(*errors)),
            Reaction::Cancel => ReactionView::Cancel,
            Reaction::Nothing => ReactionView::Nothing,
        }
    }
}

/// The character that submits the form when typed with Ctrl.
pub const SUBMIT_KEY: char = 'f';

/// The intent that an event stands for, if it is one of the form's own.
/// Enter or a left press on a button is that button's intent, and Ctrl with
/// `SUBMIT_KEY` submits from anywhere. Every other event belongs to the field
/// that has the focus.
pub open spec fn recognized(event: FormEvent, focus: Focus) -> Option<Intent> {
    match event {
        FormEvent::LeftPress | FormEvent::Enter => match focus {
            Focus::CancelButton => Some(Intent::Cancel),
            Focus::SubmitButton => Some(Intent::Submit),
            Focus::Content => None,
        },
        FormEvent::CtrlChar(c) => if c == SUBMIT_KEY {
            Some(Intent::Submit)
        } else {
            None
        },
        FormEvent::Other => None,
    }
}

/// The intent that an event stands for, if it is one of the form's own. An
/// event for which this is `Some` is consumed by the form, whatever comes
/// of it; any other is to be handed to the field that has the focus, and is
/// consumed if that field consumes it.
pub fn recognize(event: FormEvent, focus: Focus) -> (intent: Option<Intent>)
    ensures
        intent == recognized(event, focus),
{
    match event {
        FormEvent::LeftPress | FormEvent::Enter => match focus {
            Focus::CancelButton => Some(Intent::Cancel),
            Focus::SubmitButton => Some(Intent::Submit),
            Focus::Content => None,
        },
        FormEvent::CtrlChar(c) => if c == SUBMIT_KEY {
            Some(Intent::Submit)
        } else {
            None
        },
        FormEvent::Other => None,
    }
}

/// The state after an intent, and what is to be done. A session that is
/// over stays as it is. A cancel ends the session without a look at the
/// fields. A submit validates: with every field accepted the session ends
/// and the value is handed over; else the errors are shown and the user
/// goes on editing.
pub open spec fn transition(
    fields: Seq<FieldView>,
    facts: Seq<bool>,
    state: FormState,
    intent: Intent,
) -> (FormState, ReactionView) {
    if state != FormState::Editing {
        (state, ReactionView::Nothing)
    } else {
        match intent {
            Intent::Cancel => (FormState::Cancelled, ReactionView::Cancel),
            Intent::Submit => match form_verdict(fields, facts) {
                Ok(data) => (FormState::Submitted, ReactionView::Submit(data)),
                Err(errors) => (FormState::Editing, ReactionView::Complain(errors)),
            },
        }
    }
}

/// Once a session is over nothing happens any more: whatever is submitted
/// or cancelled afterwards, the state stays and nothing is to be done. So
/// what was registered for a submit or for a cancel is called at most
/// once.
pub proof fn lemma_resolved_is_final(
    fields: Seq<FieldView>,
    facts: Seq<bool>,
    state: FormState,
    intent: Intent,
)
    requires
        state != FormState::Editing,
    ensures
        transition(fields, facts, state, intent) == (state, ReactionView::Nothing),
{
}

/// A cancel does not validate: what it leads to is the same for every
/// form, whatever its fields hold and whatever is on disk.
pub proof fn lemma_cancel_ignores_fields(
    fields: Seq<FieldView>,
    facts: Seq<bool>,
    other_fields: Seq<FieldView>,
    other_facts: Seq<bool>,
    state: FormState,
)
    ensures
        transition(fields, facts, state, Intent::Cancel) == transition(
            other_fields,
            other_facts,
            state,
            Intent::Cancel,
        ),
{
}

/// A submit ends the session exactly where every field is accepted, and
/// hands over a value for each field; where a field fails the user goes on
/// editing and is shown the errors.
pub proof fn lemma_submit(fields: Seq<FieldView>, facts: Seq<bool>)
    ensures
        match transition(fields, facts, FormState::Editing, Intent::Submit) {
            (FormState::Submitted, ReactionView::Submit(data)) => {
                &&& data.dom() == labels(fields)
                &&& forall|i: int| 0 <= i < fields.len() ==> verdict_at(fields, facts, i) is Ok
            },
            (FormState::Editing, ReactionView::Complain(errors)) => {
                &&& !errors.is_empty()
                &&& exists|i: int|
                    0 <= i < fields.len() && verdict_at(fields, facts, i) is Err
                        && errors.dom().contains(fields[i].label)
            },
            _ => false,
        },
{
    lemma_validation_is_total(fields, facts);
}

impl FormView {
    /// What comes of an intent in the given state, with `facts` as what the
    /// file system said of each field.
    pub fn resolve(&self, facts: &Vec<bool>, state: FormState, intent: Intent) -> (next: (
        FormState,
        Reaction,
    ))
        ensures
            (next.0, next.1@) == transition(self@.fields, facts@, state, intent),
    {
        match state {
            FormState::Editing => match intent {
                Intent::Cancel => (FormState::Cancelled, Reaction::Cancel),
                Intent::Submit => match self.check(facts) {
                    Ok(data) => (FormState::Submitted, Reaction::Submit(data)),
                    Err(errors) => (FormState::Editing, Reaction::Complain(errors)),
                },
            },
            _ => (state, Reaction::Nothing),
        }
    }

    /// What comes of a submit in the given state. The file system is asked
    /// only where the form is validated.
    pub fn event_submit(&self, state: FormState) -> (next: (FormState, Reaction))
        ensures
            exists|facts: Seq<bool>|
                (next.0, next.1@) == transition(self@.fields, facts, state, Intent::Submit),
            !reads_disk(self@.fields) ==> (next.0, next.1@) == transition(
                self@.fields,
                Seq::<bool>::empty(),
                state,
                Intent::Submit,
            ),
    {
        match state {
            FormState::Editing => {
                let facts = self.probe();
                proof {
                    if !reads_disk(self@.fields) {
                        lemma_verdict_without_disk(self@.fields, facts@, Seq::<bool>::empty());
                    }
                }
                let next = self.resolve(&facts, state, Intent::Submit);
                assert((next.0, next.1@) == transition(
                    self@.fields,
                    facts@,
                    state,
                    Intent::Submit,
                ));
                next
            },
            _ => {
                let next = (state, Reaction::Nothing);
                assert((next.0, next.1@) == transition(
                    self@.fields,
                    Seq::<bool>::empty(),
                    state,
                    Intent::Submit,
                ));
                next
            },
        }
    }

    /// What comes of a cancel in the given state. The fields are not looked
    /// at.
    pub fn event_cancel(&self, state: FormState) -> (next: (FormState, Reaction))
        ensures
            forall|facts: Seq<bool>|
                (next.0, next.1@) == #[trigger] transition(
                    self@.fields,
                    facts,
                    state,
                    Intent::Cancel,
                ),
    {
        match state {
            FormState::Editing => (FormState::Cancelled, Reaction::Cancel),
            _ => (state, Reaction::Nothing),
        }
    }

    /// What comes of an input event in the given state, with the focus as
    /// it is once the event has reached the form's buttons. `None` says
    /// that the event is none of the form's own: it belongs to the field
    /// that has the focus.
    pub fn on_event(&self, state: FormState, event: FormEvent, focus: Focus) -> (next: Option<
        (FormState, Reaction),
    >)
        ensures
            next is Some == recognized(event, focus) is Some,
            next matches Some(n) ==> exists|facts: Seq<bool>|
                (n.0, n.1@) == transition(
                    self@.fields,
                    facts,
                    state,
                    recognized(event, focus)->0,
                ),
            next matches Some(n) ==> !reads_disk(self@.fields) ==> (n.0, n.1@) == transition(
                self@.fields,
                Seq::<bool>::empty(),
                state,
                recognized(event, focus)->0,
            ),
    {
        match recognize(event, focus) {
            Some(Intent::Submit) => Some(self.event_submit(state)),
            Some(Intent::Cancel) => {
                let next = self.event_cancel(state);
                assert((next.0, next.1@) == transition(
                    self@.fields,
                    Seq::<bool>::empty(),
                    state,
                    Intent::Cancel,
                ));
                Some(next)
            },
            None => None,
        }
    }
}

} // verus!
