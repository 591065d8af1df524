//! The text of the span that wraps an instrumented function: where the
//! function stands, its name, and its arguments by name.

use crate::augment::{append_tokens, lemma_field_views_push, tokens};
use crate::record::{field_views, Field, FieldView, Value, ValueView};
use vstd::prelude::*;

verus! {

/// One parameter of an instrumented function.
#[derive(Clone, Debug, PartialEq, Eq)]
pub enum Parameter {
    /// The receiver, in any form. It takes no part in the span.
    Receiver,
    /// A parameter bound to a plain name, with its value as the debug
    /// format writes it.
    Named { name: String, value: String },
    /// A parameter bound by any other pattern.
    Pattern,
}

/// What a [`Parameter`] holds.
pub enum ParameterView {
    Receiver,
    Named { name: Seq<char>, value: Seq<char> },
    Pattern,
}

impl View for Parameter {
    type V = ParameterView;

    open spec fn view(&self) -> ParameterView {
        match self {
            Parameter::Receiver => ParameterView::Receiver,
            Parameter::Named { name, value } => ParameterView::Named {
                name: name@,
                value: value@,
            },
            Parameter::Pattern => ParameterView::Pattern,
        }
    }
}

/// The views of a list of parameters, in order.
pub open spec fn parameter_views(parameters: Seq<Parameter>) -> Seq<ParameterView> {
    parameters.map_values(|parameter: Parameter| parameter@)
}

/// Why a function cannot be instrumented: instrumented functions need to
/// name their arguments, and the parameter at `position` has no name.
#[derive(Clone, Copy, Debug, PartialEq, Eq)]
pub struct InstrumentError {
    pub position: usize,
}

/// The named parameters as fields, in order.
pub open spec fn span_fields(parameters: Seq<ParameterView>) -> Seq<FieldView>
    decreases parameters.len(),
{
    if parameters.len() == 0 {
        Seq::empty()
    } else {
        match parameters.last() {
            ParameterView::Named { name, value } => span_fields(parameters.drop_last()).push(
                FieldView { key: name, value: ValueView::Text(value) },
            ),
            _ => span_fields(parameters.drop_last()),
        }
    }
}

/// Whether `position` is the place of the first parameter without a name.
pub open spec fn first_unnamed(parameters: Seq<ParameterView>, position: int) -> bool {
    &&& 0 <= position < parameters.len()
    &&& parameters[position] is Pattern
    &&& forall|j: int| 0 <= j < position ==> !(#[trigger] parameters[j] is Pattern)
}

/// The text of the span of the function `name` in `file`: the file, `#`,
/// the name, then each named parameter as a token.
pub open spec fn span_text(file: Seq<char>, name: Seq<char>, parameters: Seq<ParameterView>)
    -> Seq<char> {
    file + seq!['#'] + name + tokens(span_fields(parameters))
}

/// Builds the text of the span that wraps the function `name` of `file`
/// when it is called with `parameters`. Fails at the first parameter that
/// is bound by a pattern rather than a name.
pub fn instrument(file: &str, name: &str, parameters: &Vec<Parameter>) -> (res: Result<
    String,
    InstrumentError,
>)
    ensures
        match res {
            Ok(text) => {
                &&& forall|j: int|
                    0 <= j < parameters.len() ==> !(#[trigger] parameter_views(parameters@)[j]
                        is Pattern)
                &&& text@ == span_text(file@, name@, parameter_views(parameters@))
            },
            Err(error) => first_unnamed(parameter_views(parameters@), error.position as int),
        },
{
    let ghost views = parameter_views(parameters@);
    let mut fields: Vec<Field> = Vec::new();
    let mut i: usize = 0;
    assert(views.take(0) == Seq::<ParameterView>::empty());
    assert(field_views(fields@) == Seq::<FieldView>::empty());
    while i < parameters.len()
        invariant
            i <= parameters.len(),
            views == parameter_views(parameters@),
            forall|j: int| 0 <= j < i ==> !(#[trigger] views[j] is Pattern),
            field_views(fields@) == span_fields(views.take(i as int)),
        decreases parameters.len() - i,
    {
        proof {
            let longer = views.take(i + 1);
            assert(longer.drop_last() == views.take(i as int));
            assert(longer.last() == parameters[i as int]@);
        }
        match &parameters[i] {
            Parameter::Receiver => {},
            Parameter::Named { name, value } => {
                let field = Field { key: name.clone(), value: Value::Text(value.clone()) };
                proof {
                    lemma_field_views_push(fields@, field);
                }
                fields.push(field);
            },
            Parameter::Pattern => {
                return Err(InstrumentError { position: i });
            },
        }
        i = i + 1;
    }
    assert(views.take(parameters.len() as int) == views);
    let mut text = file.to_owned();
    text.push('#');
    text.append(name);
    append_tokens(&mut text, &fields);
    Ok(text)
}

} // verus!
