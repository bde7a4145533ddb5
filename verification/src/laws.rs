//! Properties of the scan, proved of the model that `tokenize`'s
//! contract pins its result to.

use vstd::prelude::*;
use crate::model::SpecError;
use crate::model::SpecStep;
use crate::model::SpecToken;
use crate::model::lemma_step_at_advance;
use crate::model::spec_step_at;
use crate::model::spec_tokenize;
use crate::model::spec_tokenize_from;
use crate::tokenizer::spec_is_whitespace;

verus! {

proof fn lemma_from_ends_in_eof(text: Seq<char>, i: int)
    requires
        0 <= i <= text.len(),
        spec_tokenize_from(text, i) is Ok,
    ensures
        ({
            let ts = spec_tokenize_from(text, i)->Ok_0;
            &&& ts.len() >= 1
            &&& ts[ts.len() - 1] == SpecToken::EOF
            &&& forall|j: int| 0 <= j < ts.len() - 1 ==> ts[j] != SpecToken::EOF
        }),
    decreases text.len() - i,
{
    if i < text.len() {
        match spec_step_at(text, i) {
            SpecStep::Emit(t, n) => {
                lemma_step_at_advance(text, i);
                lemma_from_ends_in_eof(text, i + n);
            },
            SpecStep::Skip => {
                lemma_from_ends_in_eof(text, i + 1);
            },
            SpecStep::Reject => {},
        }
    }
}

/// Law: a successful scan yields at least one token; the last one is
/// `EOF`, and `EOF` stands nowhere else in the sequence.
pub proof fn lemma_tokenize_ends_in_eof(text: Seq<char>)
    requires
        spec_tokenize(text) is Ok,
    ensures
        ({
            let ts = spec_tokenize(text)->Ok_0;
            &&& ts.len() >= 1
            &&& ts[ts.len() - 1] == SpecToken::EOF
            &&& forall|j: int| 0 <= j < ts.len() - 1 ==> ts[j] != SpecToken::EOF
        }),
{
    lemma_from_ends_in_eof(text, 0);
}

proof fn lemma_from_whitespace(text: Seq<char>, i: int)
    requires
        0 <= i <= text.len(),
        forall|j: int| 0 <= j < text.len() ==> spec_is_whitespace(#[trigger] text[j]),
    ensures
        spec_tokenize_from(text, i) == Ok::<Seq<SpecToken>, SpecError>(seq![SpecToken::EOF]),
    decreases text.len() - i,
{
    if i < text.len() {
        assert(spec_is_whitespace(text[i]));
        lemma_from_whitespace(text, i + 1);
    }
}

/// Law: scanning an empty or whitespace-only text yields exactly the
/// one-token sequence `[EOF]`.
pub proof fn lemma_tokenize_whitespace_only(text: Seq<char>)
    requires
        forall|j: int| 0 <= j < text.len() ==> spec_is_whitespace(#[trigger] text[j]),
    ensures
        spec_tokenize(text) == Ok::<Seq<SpecToken>, SpecError>(seq![SpecToken::EOF]),
{
    lemma_from_whitespace(text, 0);
}

} // verus!
