//! Resolution of an expression to the remote note that holds it.
use vstd::prelude::*;
use vstd::string::StringExecFns;
use crate::model::Expression;
use crate::ruby::{field_matches_expression, plain_text, plain_text_of, text_matches};
use crate::text::{concat3, trim_str, trimmed};

verus! {

/// Why an expression could not be tied to a remote note.
#[derive(Clone, Debug)]
pub enum ResolutionError {
    /// The search found no note at all (the expression is carried).
    NoCandidates(String),
    /// The examined note does not hold the expression (the trimmed
    /// expression is carried).
    NotFound(String),
    /// The configured expression field does not exist on the note (the
    /// field name is carried).
    ConfigMismatch(String),
    /// A remote call failed on the way (its message is carried).
    Network(String),
}

/// The human-readable text of a resolution failure.
pub open spec fn resolution_message(e: ResolutionError) -> Seq<char> {
    match e {
        ResolutionError::NoCandidates(word) => "No notes found for: "@ + word@,
        ResolutionError::NotFound(word) => "Can't find `"@ + word@ + "` in any decks!"@,
        ResolutionError::ConfigMismatch(field) => "Incorrect Field: `"@ + field@
            + "`; `expression` field in config has to match Anki Note!"@,
        ResolutionError::Network(msg) => msg@,
    }
}

impl ResolutionError {
    /// The human-readable text of this failure.
    pub fn message(&self) -> (r: String)
        ensures
            r@ == resolution_message(*self),
    {
        match self {
            ResolutionError::NoCandidates(word) => {
                let mut m = "No notes found for: ".to_string();
                m.append(word.as_str());
                m
            },
            ResolutionError::NotFound(word) => concat3("Can't find `", word.as_str(), "` in any decks!"),
            ResolutionError::ConfigMismatch(field) => concat3(
                "Incorrect Field: `",
                field.as_str(),
                "`; `expression` field in config has to match Anki Note!",
            ),
            ResolutionError::Network(msg) => msg.clone(),
        }
    }
}

/// The value of the first field named `name`, if any.
pub open spec fn lookup_field(fields: Seq<(String, String)>, name: Seq<char>) -> Option<Seq<char>>
    decreases fields.len(),
{
    if fields.len() == 0 {
        None
    } else if fields[0].0@ == name {
        Some(fields[0].1@)
    } else {
        lookup_field(fields.drop_first(), name)
    }
}

/// The value of the field named `name` among a note's `(name, value)` pairs.
pub fn find_field<'a>(fields: &'a Vec<(String, String)>, name: &str) -> (r: Option<&'a String>)
    ensures
        r is None <==> lookup_field(fields@, name@) is None,
        r matches Some(v) ==> lookup_field(fields@, name@) == Some(v@),
{
    let mut i: usize = 0;
    assert(fields@.skip(0) =~= fields@);
    while i < fields.len()
        invariant
            i <= fields@.len(),
            lookup_field(fields@, name@) == lookup_field(fields@.skip(i as int), name@),
        decreases fields@.len() - i,
    {
        assert(fields@.skip(i as int).drop_first() =~= fields@.skip(i as int + 1));
        let key = fields[i].0.as_str();
        let wanted = name.to_string();
        let found = key.to_string();
        if found == wanted {
            return Some(&fields[i].1);
        }
        i = i + 1;
    }
    None
}

/// The candidate that resolution examines: the most recently created note,
/// the last of the ids that the search returned (oldest first).
pub fn select_candidate(ids: &Vec<u128>, expression: &str) -> (r: Result<u128, ResolutionError>)
    ensures
        ids@.len() == 0 ==> (r matches Err(ResolutionError::NoCandidates(w)) && w@ == expression@),
        ids@.len() > 0 ==> r == Ok::<u128, ResolutionError>(ids@.last()),
{
    if ids.len() == 0 {
        Err(ResolutionError::NoCandidates(expression.to_string()))
    } else {
        Ok(ids[ids.len() - 1])
    }
}

/// Decides whether the note `id`, whose fields are `fields`, holds
/// `expression` in the field named `field_name`.
pub fn check_note_fields(
    id: u128,
    fields: &Vec<(String, String)>,
    field_name: &str,
    expression: &str,
) -> (r: Result<u128, ResolutionError>)
    ensures
        lookup_field(fields@, field_name@) is None ==> (r matches Err(
            ResolutionError::ConfigMismatch(f),
        ) && f@ == field_name@),
        lookup_field(fields@, field_name@) matches Some(v) && text_matches(v, expression@)
            ==> r == Ok::<u128, ResolutionError>(id),
        lookup_field(fields@, field_name@) matches Some(v) && !text_matches(v, expression@)
            ==> (r matches Err(ResolutionError::NotFound(w)) && w@ == trimmed(expression@)),
{
    match find_field(fields, field_name) {
        None => Err(ResolutionError::ConfigMismatch(field_name.to_string())),
        Some(raw) => {
            if field_matches_expression(raw.as_str(), expression) {
                Ok(id)
            } else {
                Err(ResolutionError::NotFound(trim_str(expression).to_string()))
            }
        },
    }
}

/// The word that a note's expression field shows: its plain text.
pub open spec fn note_word(raw: Seq<char>) -> Seq<char> {
    plain_text(raw)
}

/// Expressions for the notes `(id, fields)`, each named by the plain text of
/// its `field_name` field and tied to its note; fails on the first note
/// that lacks that field.
pub fn expressions_from_notes(notes: &Vec<(u128, Vec<(String, String)>)>, field_name: &str) -> (r:
    Result<Vec<Expression>, ResolutionError>)
    ensures
        r is Ok <==> forall|i: int|
            0 <= i < notes@.len() ==> #[trigger] lookup_field(notes@[i].1@, field_name@) is Some,
        r matches Ok(v) ==> v@.len() == notes@.len(),
        r matches Ok(v) ==> forall|i: int|
            0 <= i < v@.len() ==> {
                &&& lookup_field(notes@[i].1@, field_name@) matches Some(raw)
                &&& (#[trigger] v@[i]).dict_word@ == note_word(raw)
                &&& v@[i].note_id == Some(notes@[i].0)
                &&& v@[i].sentences is None
            },
        r matches Err(e) ==> (e matches ResolutionError::ConfigMismatch(f) && f@ == field_name@),
{
    let mut out: Vec<Expression> = Vec::new();
    let mut i: usize = 0;
    while i < notes.len()
        invariant
            i <= notes@.len(),
            out@.len() == i,
            forall|k: int| 0 <= k < i ==> #[trigger] lookup_field(notes@[k].1@, field_name@) is Some,
            forall|k: int|
                0 <= k < i ==> {
                    &&& lookup_field(notes@[k].1@, field_name@) matches Some(raw)
                    &&& (#[trigger] out@[k]).dict_word@ == note_word(raw)
                    &&& out@[k].note_id == Some(notes@[k].0)
                    &&& out@[k].sentences is None
                },
        decreases notes@.len() - i,
    {
        let (id, fields) = &notes[i];
        match find_field(fields, field_name) {
            None => {
                return Err(ResolutionError::ConfigMismatch(field_name.to_string()));
            },
            Some(raw) => {
                let word = plain_text_of(raw.as_str());
                out.push(Expression::from(word, None, None, Some(*id)));
            },
        }
        i = i + 1;
    }
    Ok(out)
}

} // verus!
