//! Building blocks of a form: a field is a label, a help text, an initial
//! value and the rules that what the user typed has to meet.

use vstd::prelude::*;
use crate::disk::is_on_disk;
use crate::text::{chars_of, same_text, string_of, texts};
use crate::validators::{outcome, Answer, AnswerView, Validator};

verus! {

/// The width to which a label is filled up in an annotation.
pub const LABEL_WIDTH: usize = 20;

/// `label`, followed by as many spaces as it lacks to `width` characters.
pub open spec fn padded(label: Seq<char>, width: nat) -> Seq<char> {
    if label.len() >= width {
        label
    } else {
        label + Seq::new((width - label.len()) as nat, |i: int| ' ')
    }
}

/// The line that stands above a field's widget: the label, filled up to
/// `LABEL_WIDTH` characters, then a colon, a space and the help text where
/// there is one.
pub open spec fn annotation(label: Seq<char>, help: Seq<char>) -> Seq<char> {
    if help.len() > 0 {
        padded(label, LABEL_WIDTH as nat) + seq![':', ' '] + help
    } else {
        padded(label, LABEL_WIDTH as nat)
    }
}

/// The line that stands above a field's widget.
pub fn format_annotation(label: &str, help: &str) -> (line: String)
    ensures
        line@ == annotation(label@, help@),
{
    let mut line = chars_of(label);
    let help = chars_of(help);
    let ghost filled = padded(label@, LABEL_WIDTH as nat);
    while line.len() < LABEL_WIDTH
        invariant
            label@.len() <= line.len(),
            line.len() <= LABEL_WIDTH || line.len() == label@.len(),
            line@ == label@ + Seq::new((line.len() - label@.len()) as nat, |i: int| ' '),
        decreases LABEL_WIDTH - line.len(),
    {
        line.push(' ');
        assert(line@ =~= label@ + Seq::new((line.len() - label@.len()) as nat, |i: int| ' '));
    }
    assert(line@ =~= filled);
    if help.len() > 0 {
        line.push(':');
        line.push(' ');
        let mut i: usize = 0;
        while i < help.len()
            invariant
                i <= help.len(),
                line@ == filled + seq![':', ' '] + help@.take(i as int),
            decreases help.len() - i,
        {
            line.push(help[i]);
            assert(help@.take(i + 1) == help@.take(i as int).push(help@[i as int]));
            i += 1;
        }
        assert(help@.take(help.len() as int) == help@);
    }
    string_of(&line)
}

/// The kind of a field: which widget shows it and how its raw text turns
/// into a value.
#[derive(Clone, Copy, Debug, PartialEq, Eq, Structural)]
pub enum FieldKind {
    /// A line of free text.
    Text,
    /// A box that is ticked or not; its raw text is `true` or `false`.
    Checkbox,
    /// A line of text that is completed from suggestions.
    Autocomplete,
    /// A selection of several suggestions.
    Multiselect,
}

/// The message for the raw text of a checkbox that is neither `true` nor
/// `false`.
pub open spec fn flag_message() -> Seq<char> {
    "Value must be true or false"@
}

/// The value that the raw text of a field of this kind stands for. A
/// checkbox reads `true` and `false` and refuses everything else; every
/// other kind takes the text as it is.
pub open spec fn encoded(kind: FieldKind, raw: Seq<char>) -> Result<AnswerView, Seq<char>> {
    match kind {
        FieldKind::Checkbox => if raw == "true"@ {
            Ok(AnswerView::Flag(true))
        } else if raw == "false"@ {
            Ok(AnswerView::Flag(false))
        } else {
            Err(flag_message())
        },
        _ => Ok(AnswerView::Text(raw)),
    }
}

/// The message of the first of `rules` that rejects `raw`, in the order of
/// the list; `None` where every rule accepts it.
pub open spec fn first_rejection(rules: Seq<Validator>, raw: Seq<char>, on_disk: bool) -> Option<
    Seq<char>,
>
    decreases rules.len(),
{
    if rules.len() == 0 {
        None
    } else if rules.first().rejection(raw, on_disk) is Some {
        rules.first().rejection(raw, on_disk)
    } else {
        first_rejection(rules.drop_first(), raw, on_disk)
    }
}

/// What a field is made of.
pub struct FieldView {
    /// The label, which names the field within its form.
    pub label: Seq<char>,
    /// The help text.
    pub help: Seq<char>,
    /// The text that the field shows before anything is typed.
    pub initial: Seq<char>,
    /// The raw text that the field holds now.
    pub value: Seq<char>,
    /// The kind of the field.
    pub kind: FieldKind,
    /// The rules, in the order in which they are applied.
    pub rules: Seq<Validator>,
}

impl FieldView {
    /// Whether one of the field's rules asks the file system.
    pub open spec fn reads_disk(self) -> bool {
        exists|i: int| 0 <= i < self.rules.len() && (#[trigger] self.rules[i]).reads_disk()
    }

    /// What validation makes of the raw text `raw`: the one message of the
    /// first rule that rejects it; where none does, the value that the text
    /// stands for, or the one message that says why it stands for none.
    /// `on_disk` says whether `raw` is the path of an existing entry.
    pub open spec fn verdict(self, raw: Seq<char>, on_disk: bool) -> Result<
        AnswerView,
        Seq<Seq<char>>,
    > {
        match first_rejection(self.rules, raw, on_disk) {
            Some(message) => Err(seq![message]),
            None => match encoded(self.kind, raw) {
                Ok(value) => Ok(value),
                Err(message) => Err(seq![message]),
            },
        }
    }
}

/// The rules stop at the first rejection: where rule `i` rejects the text
/// and every rule before it accepts it, the field's one error is the
/// message of rule `i`, whatever the rules after it say.
pub proof fn lemma_first_rejection_wins(
    field: FieldView,
    raw: Seq<char>,
    on_disk: bool,
    i: int,
)
    requires
        0 <= i < field.rules.len(),
        field.rules[i].rejection(raw, on_disk) is Some,
        forall|j: int| 0 <= j < i ==> field.rules[j].rejection(raw, on_disk) is None,
    ensures
        field.verdict(raw, on_disk) == Err::<AnswerView, Seq<Seq<char>>>(
            seq![field.rules[i].rejection(raw, on_disk)->0],
        ),
{
    lemma_first_rejection_at(field.rules, raw, on_disk, i);
}

/// A field without rules takes the raw text as its kind reads it.
pub proof fn lemma_no_rules(field: FieldView, raw: Seq<char>, on_disk: bool)
    requires
        field.rules.len() == 0,
    ensures
        field.verdict(raw, on_disk) == match encoded(field.kind, raw) {
            Ok(value) => Ok::<AnswerView, Seq<Seq<char>>>(value),
            Err(message) => Err(seq![message]),
        },
{
}

/// A field is accepted exactly where each of its rules accepts the text
/// and the text stands for a value.
pub proof fn lemma_accepted(field: FieldView, raw: Seq<char>, on_disk: bool)
    ensures
        field.verdict(raw, on_disk) is Ok <==> (forall|i: int|
            0 <= i < field.rules.len() ==> (#[trigger] field.rules[i]).rejection(raw, on_disk)
                is None) && encoded(field.kind, raw) is Ok,
        field.verdict(raw, on_disk) is Err ==> field.verdict(raw, on_disk)->Err_0.len() == 1,
{
    lemma_first_rejection_none(field.rules, raw, on_disk);
}

/// Where no rule of the field asks the file system, the verdict does not
/// depend on what the file system said.
pub proof fn lemma_verdict_without_disk(field: FieldView, raw: Seq<char>)
    requires
        !field.reads_disk(),
    ensures
        field.verdict(raw, true) == field.verdict(raw, false),
{
    lemma_first_rejection_without_disk(field.rules, raw);
}

proof fn lemma_first_rejection_without_disk(rules: Seq<Validator>, raw: Seq<char>)
    requires
        forall|i: int| 0 <= i < rules.len() ==> !(#[trigger] rules[i]).reads_disk(),
    ensures
        first_rejection(rules, raw, true) == first_rejection(rules, raw, false),
    decreases rules.len(),
{
    if rules.len() > 0 {
        let rest = rules.drop_first();
        assert(!rules[0].reads_disk());
        assert forall|i: int| 0 <= i < rest.len() implies !(#[trigger] rest[i]).reads_disk() by {
            assert(rest[i] == rules[i + 1]);
        }
        lemma_first_rejection_without_disk(rest, raw);
    }
}

proof fn lemma_first_rejection_at(rules: Seq<Validator>, raw: Seq<char>, on_disk: bool, i: int)
    requires
        0 <= i < rules.len(),
        rules[i].rejection(raw, on_disk) is Some,
        forall|j: int| 0 <= j < i ==> rules[j].rejection(raw, on_disk) is None,
    ensures
        first_rejection(rules, raw, on_disk) == rules[i].rejection(raw, on_disk),
    decreases rules.len(),
{
    if i > 0 {
        let rest = rules.drop_first();
        assert(rules.first() == rules[0]);
        assert forall|j: int| 0 <= j < i - 1 implies rest[j].rejection(raw, on_disk) is None by {
            assert(rest[j] == rules[j + 1]);
        }
        lemma_first_rejection_at(rest, raw, on_disk, i - 1);
    }
}

proof fn lemma_first_rejection_none(rules: Seq<Validator>, raw: Seq<char>, on_disk: bool)
    ensures
        first_rejection(rules, raw, on_disk) is None <==> forall|i: int|
            0 <= i < rules.len() ==> (#[trigger] rules[i]).rejection(raw, on_disk) is None,
    decreases rules.len(),
{
    if rules.len() > 0 {
        let rest = rules.drop_first();
        lemma_first_rejection_none(rest, raw, on_disk);
        if rules.first().rejection(raw, on_disk) is None {
            if first_rejection(rest, raw, on_disk) is None {
                assert forall|i: int| 0 <= i < rules.len() implies (#[trigger] rules[i]).rejection(
                    raw,
                    on_disk,
                ) is None by {
                    if i > 0 {
                        assert(rest[i - 1] == rules[i]);
                    }
                }
            } else {
                let k = choose|k: int|
                    0 <= k < rest.len() && (#[trigger] rest[k]).rejection(raw, on_disk) is Some;
                assert(rules[k + 1] == rest[k]);
            }
        } else {
            assert(rules[0].rejection(raw, on_disk) is Some);
        }
    }
}

/// One labelled input of a form, with the rules for what is typed into
/// it.
#[derive(Debug)]
pub struct Field {
    label: String,
    help: String,
    initial: String,
    value: String,
    kind: FieldKind,
    validators: Vec<Validator>,
}

impl View for Field {
    type V = FieldView;

    closed spec fn view(&self) -> FieldView {
        FieldView {
            label: self.label@,
            help: self.help@,
            initial: self.initial@,
            value: self.value@,
            kind: self.kind,
            rules: self.validators@,
        }
    }
}

/// What a result of a field's validation holds.
pub open spec fn field_outcome(result: Result<Answer, Vec<String>>) -> Result<
    AnswerView,
    Seq<Seq<char>>,
> {
    match result {
        Ok(value) => Ok(value@),
        Err(errors) => Err(texts(errors@)),
    }
}

impl Field {
    /// A field of the given kind with no help text and no rules. It holds
    /// its initial text.
    pub fn new(label: &str, kind: FieldKind, initial: &str) -> (field: Field)
        ensures
            field@ == (FieldView {
                label: label@,
                help: Seq::<char>::empty(),
                initial: initial@,
                value: initial@,
                kind: kind,
                rules: Seq::<Validator>::empty(),
            }),
    {
        Field {
            label: label.to_owned(),
            help: String::new(),
            initial: initial.to_owned(),
            value: initial.to_owned(),
            kind,
            validators: Vec::new(),
        }
    }

    /// Sets the help text.
    pub fn help(self, msg: &str) -> (field: Field)
        ensures
            field@ == (FieldView { help: msg@, ..self@ }),
    {
        let mut field = self;
        field.help = msg.to_owned();
        field
    }

    /// Sets the text that the field shows before anything is typed, and
    /// with it the text that the field holds.
    pub fn initial(self, initial: &str) -> (field: Field)
        ensures
            field@ == (FieldView { initial: initial@, value: initial@, ..self@ }),
    {
        let mut field = self;
        field.initial = initial.to_owned();
        field.value = initial.to_owned();
        field
    }

    /// Replaces the raw text that the field holds.
    pub fn set_value(&mut self, raw: &str)
        ensures
            final(self)@ == (FieldView { value: raw@, ..old(self)@ }),
    {
        self.value = raw.to_owned();
    }

    /// The raw text that the field holds now.
    pub fn get_value(&self) -> (raw: &str)
        ensures
            raw@ == self@.value,
    {
        self.value.as_str()
    }

    /// Adds a rule after those that the field has.
    pub fn validator(self, validator: Validator) -> (field: Field)
        ensures
            field@ == (FieldView { rules: self@.rules.push(validator), ..self@ }),
    {
        let mut field = self;
        field.validators.push(validator);
        field
    }

    /// The label, which names the field within its form.
    pub fn get_label(&self) -> (label: &str)
        ensures
            label@ == self@.label,
    {
        self.label.as_str()
    }

    /// The help text.
    pub fn get_help(&self) -> (help: &str)
        ensures
            help@ == self@.help,
    {
        self.help.as_str()
    }

    /// The text that the field shows before anything is typed.
    pub fn get_initial(&self) -> (initial: &str)
        ensures
            initial@ == self@.initial,
    {
        self.initial.as_str()
    }

    /// The kind of the field.
    pub fn get_kind(&self) -> (kind: FieldKind)
        ensures
            kind == self@.kind,
    {
        self.kind
    }

    /// The line that stands above the field's widget.
    pub fn annotation(&self) -> (line: String)
        ensures
            line@ == annotation(self@.label, self@.help),
    {
        format_annotation(self.label.as_str(), self.help.as_str())
    }

    /// Whether one of the field's rules asks the file system.
    pub fn needs_disk(&self) -> (needed: bool)
        ensures
            needed == self@.reads_disk(),
    {
        let mut i: usize = 0;
        while i < self.validators.len()
            invariant
                i <= self.validators.len(),
                forall|j: int| 0 <= j < i ==> !(#[trigger] self.validators@[j]).reads_disk(),
            decreases self.validators.len() - i,
        {
            if self.validators[i].needs_disk() {
                assert(self@.rules[i as int].reads_disk());
                return true;
            }
            i += 1;
        }
        false
    }

    /// Validates the raw text `raw`, of which the file system said
    /// `on_disk`.
    pub fn check(&self, raw: &str, on_disk: bool) -> (result: Result<Answer, Vec<String>>)
        ensures
            field_outcome(result) == self@.verdict(raw@, on_disk),
    {
        let mut i: usize = 0;
        assert(self.validators@.skip(0) == self.validators@);
        while i < self.validators.len()
            invariant
                i <= self.validators.len(),
                first_rejection(self.validators@, raw@, on_disk) == first_rejection(
                    self.validators@.skip(i as int),
                    raw@,
                    on_disk,
                ),
            decreases self.validators.len() - i,
        {
            proof {
                let rest = self.validators@.skip(i as int);
                assert(rest.first() == self.validators@[i as int]);
                assert(rest.drop_first() == self.validators@.skip(i + 1));
            }
            match self.validators[i].check(raw, on_disk) {
                Ok(_) => {},
                Err(message) => {
                    let mut errors: Vec<String> = Vec::new();
                    errors.push(message);
                    assert(texts(errors@) =~= seq![message@]);
                    return Err(errors);
                },
            }
            i += 1;
        }
        match encode(self.kind, raw) {
            Ok(value) => Ok(value),
            Err(message) => {
                let mut errors: Vec<String> = Vec::new();
                errors.push(message);
                assert(texts(errors@) =~= seq![message@]);
                Err(errors)
            },
        }
    }

    /// Validates the raw text `raw`. Where a rule of the field reads the
    /// disk, the file system is asked whether `raw` is the path of an
    /// existing entry, and the result is the verdict for its answer.
    pub fn validate(&self, raw: &str) -> (result: Result<Answer, Vec<String>>)
        ensures
            field_outcome(result) == self@.verdict(raw@, true) || field_outcome(result)
                == self@.verdict(raw@, false),
            !self@.reads_disk() ==> field_outcome(result) == self@.verdict(raw@, false),
    {
        let on_disk = if self.needs_disk() {
            is_on_disk(raw)
        } else {
            false
        };
        self.check(raw, on_disk)
    }
}

/// The value that the raw text of a field of this kind stands for.
pub fn encode(kind: FieldKind, raw: &str) -> (result: Result<Answer, String>)
    ensures
        outcome(result) == encoded(kind, raw@),
{
    match kind {
        FieldKind::Checkbox => {
            if same_text(raw, "true") {
                Ok(Answer::Flag(true))
            } else if same_text(raw, "false") {
                Ok(Answer::Flag(false))
            } else {
                Err("Value must be true or false".to_owned())
            }
        },
        _ => Ok(Answer::Text(raw.to_owned())),
    }
}

} // verus!
