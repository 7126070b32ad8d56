//! Method descriptors: `(` parameter types `)` and a return type or `V`.
use super::types::{
    lemma_type_span, spec_is_beginning_char, spec_type, DescriptorType, DescriptorTypeError, TypeModel,
};
use vstd::prelude::*;
use vstd::slice::slice_subrange;

verus! {

/// `(`, which opens the parameter types.
pub const PARAMS_OPEN: u8 = 40;
/// `)`, which closes the parameter types.
pub const PARAMS_CLOSE: u8 = 41;
/// `V`, the return type of a method that returns nothing.
pub const TAG_VOID: u8 = 86;

#[derive(Debug, Clone, Copy, PartialEq, Eq, Structural)]
pub enum MethodDescriptorError {
    /// There was no input.
    Empty,
    /// The first byte is not `(`.
    NoOpeningBracket,
    /// The parameter types are not followed by `)`.
    NoClosingBracket,
    /// A parameter type failed, with the position of that parameter.
    ParameterTypeError(DescriptorTypeError, usize),
    /// The return type failed.
    ReturnTypeError(DescriptorTypeError),
    /// Nothing follows `)`.
    NoReturnType,
    /// Bytes follow the return type.
    RemainingData,
}

/// A parsed method descriptor.
#[derive(Debug, Clone, PartialEq, Eq)]
pub struct MethodDescriptor {
    pub parameter_types: Vec<DescriptorType>,
    /// `None` where the method returns `void`.
    pub return_type: Option<DescriptorType>,
}

/// What a `MethodDescriptor` denotes.
pub struct MethodDescriptorModel {
    pub parameter_types: Seq<TypeModel>,
    pub return_type: Option<TypeModel>,
}

/// The views of some types.
pub open spec fn types_view(ts: Seq<DescriptorType>) -> Seq<TypeModel> {
    ts.map_values(|t: DescriptorType| t@)
}

impl View for MethodDescriptor {
    type V = MethodDescriptorModel;

    open spec fn view(&self) -> MethodDescriptorModel {
        MethodDescriptorModel {
            parameter_types: types_view(self.parameter_types@),
            return_type: match self.return_type {
                Some(t) => Some(t@),
                None => None,
            },
        }
    }
}

/// The parameter types at the start of `t`, the one at its start being
/// parameter `idx`, up to and including the closing `)`; and the bytes after
/// that `)`.
pub open spec fn spec_params(t: Seq<u8>, idx: nat) -> Result<(Seq<TypeModel>, Seq<u8>), MethodDescriptorError>
    decreases t.len(),
{
    if t.len() > 0 && spec_is_beginning_char(t[0]) {
        match spec_type(t) {
            Err(e) => Err(MethodDescriptorError::ParameterTypeError(e, idx as usize)),
            Ok((v, k)) => if 1 <= k <= t.len() {
                match spec_params(t.skip(k), idx + 1) {
                    Ok((vs, rest)) => Ok((seq![v] + vs, rest)),
                    Err(e) => Err(e),
                }
            } else {
                Err(MethodDescriptorError::NoClosingBracket)
            },
        }
    } else if t.len() > 0 && t[0] == PARAMS_CLOSE {
        Ok((Seq::empty(), t.skip(1)))
    } else {
        Err(MethodDescriptorError::NoClosingBracket)
    }
}

/// The return type, from the bytes after `)`: `V` for none, else one field
/// type that spans all of them.
pub open spec fn spec_return(t: Seq<u8>) -> Result<Option<TypeModel>, MethodDescriptorError> {
    if t.len() == 0 {
        Err(MethodDescriptorError::NoReturnType)
    } else if t[0] == TAG_VOID {
        Ok(None)
    } else {
        match spec_type(t) {
            Err(e) => Err(MethodDescriptorError::ReturnTypeError(e)),
            Ok((v, k)) => if k < t.len() {
                Err(MethodDescriptorError::RemainingData)
            } else {
                Ok(Some(v))
            },
        }
    }
}

/// The method descriptor that `t` spells.
pub open spec fn spec_method_descriptor(t: Seq<u8>) -> Result<MethodDescriptorModel, MethodDescriptorError> {
    if t.len() == 0 {
        Err(MethodDescriptorError::Empty)
    } else if t[0] != PARAMS_OPEN {
        Err(MethodDescriptorError::NoOpeningBracket)
    } else {
        match spec_params(t.skip(1), 0) {
            Err(e) => Err(e),
            Ok((ps, rest)) => match spec_return(rest) {
                Err(e) => Err(e),
                Ok(ret) => Ok(MethodDescriptorModel { parameter_types: ps, return_type: ret }),
            },
        }
    }
}

/// `r`, with `acc` put before the types it holds.
pub open spec fn params_after(
    acc: Seq<TypeModel>,
    r: Result<(Seq<TypeModel>, Seq<u8>), MethodDescriptorError>,
) -> Result<(Seq<TypeModel>, Seq<u8>), MethodDescriptorError> {
    match r {
        Ok((vs, rest)) => Ok((acc + vs, rest)),
        Err(e) => Err(e),
    }
}

/// The state of a parameter iterator: the bytes it has not read, whether it
/// has read the closing `)` (or failed to find it), whether it failed, and
/// how many parameters it has given.
pub struct ParamsState {
    pub text: Seq<u8>,
    pub got_all_parameters: bool,
    pub errored: bool,
    pub processed: nat,
}

/// One step of the parameter iterator: its next state and what it yields.
pub open spec fn spec_next(s: ParamsState) -> (ParamsState, Option<Result<TypeModel, MethodDescriptorError>>) {
    if s.got_all_parameters || s.errored {
        (s, None)
    } else if !(s.text.len() > 0 && spec_is_beginning_char(s.text[0])) {
        if s.text.len() > 0 && s.text[0] == PARAMS_CLOSE {
            (ParamsState { text: s.text.skip(1), got_all_parameters: true, ..s }, None)
        } else {
            (
                ParamsState { got_all_parameters: true, errored: true, ..s },
                Some(Err(MethodDescriptorError::NoClosingBracket)),
            )
        }
    } else {
        match spec_type(s.text) {
            Ok((v, k)) => (
                ParamsState { text: s.text.skip(k), processed: s.processed + 1, ..s },
                Some(Ok(v)),
            ),
            Err(e) => (
                ParamsState { errored: true, ..s },
                Some(Err(MethodDescriptorError::ParameterTypeError(e, s.processed as usize))),
            ),
        }
    }
}

/// Gives the parameter types of a method descriptor one at a time; after the
/// last, `finish_return_type` gives the return type.
#[derive(Clone, Copy)]
pub struct MethodDescriptorParserIterator<'a> {
    text: &'a [u8],
    got_all_parameters: bool,
    errored: bool,
    processed_parameters: usize,
}

impl<'a> View for MethodDescriptorParserIterator<'a> {
    type V = ParamsState;

    closed spec fn view(&self) -> ParamsState {
        ParamsState {
            text: self.text@,
            got_all_parameters: self.got_all_parameters,
            errored: self.errored,
            processed: self.processed_parameters as nat,
        }
    }
}

impl<'a> MethodDescriptorParserIterator<'a> {
    #[verifier::type_invariant]
    spec fn counted(&self) -> bool {
        self.processed_parameters + self.text@.len() <= usize::MAX
    }

    fn new(text: &'a [u8]) -> (r: Result<MethodDescriptorParserIterator<'a>, MethodDescriptorError>)
        ensures
            text@.len() == 0 ==> r == Err::<MethodDescriptorParserIterator<'a>, MethodDescriptorError>(
                MethodDescriptorError::Empty,
            ),
            text@.len() > 0 && text@[0] != PARAMS_OPEN ==> r == Err::<
                MethodDescriptorParserIterator<'a>,
                MethodDescriptorError,
            >(MethodDescriptorError::NoOpeningBracket),
            text@.len() > 0 && text@[0] == PARAMS_OPEN ==> (r matches Ok(it) && it@ == ParamsState {
                text: text@.skip(1),
                got_all_parameters: false,
                errored: false,
                processed: 0,
            }),
    {
        if text.len() == 0 {
            return Err(MethodDescriptorError::Empty);
        }
        if text[0] != PARAMS_OPEN {
            return Err(MethodDescriptorError::NoOpeningBracket);
        }
        let text = slice_subrange(text, 1, text.len());
        Ok(MethodDescriptorParserIterator {
            text,
            got_all_parameters: false,
            errored: false,
            processed_parameters: 0,
        })
    }

    /// The next parameter type, an error, or `None` once the closing `)` has
    /// been read or an error given.
    pub fn next(&mut self) -> (r: Option<Result<DescriptorType, MethodDescriptorError>>)
        ensures
            final(self)@ == spec_next(old(self)@).0,
            match spec_next(old(self)@).1 {
                None => r is None,
                Some(Ok(v)) => r matches Some(Ok(w)) && w@ == v,
                Some(Err(e)) => r == Some(Err::<DescriptorType, MethodDescriptorError>(e)),
            },
    {
        proof {
            use_type_invariant(&*self);
        }
        if self.got_all_parameters || self.errored {
            return None;
        }
        let is_descriptor_type = self.text.len() > 0 && DescriptorType::is_beginning_char(self.text[0]);
        if !is_descriptor_type {
            self.got_all_parameters = true;
            if !(self.text.len() > 0 && self.text[0] == PARAMS_CLOSE) {
                self.errored = true;
                return Some(Err(MethodDescriptorError::NoClosingBracket));
            }
            self.text = slice_subrange(self.text, 1, self.text.len());
            None
        } else {
            match DescriptorType::parse(self.text) {
                Ok((parameter, after_text)) => {
                    self.text = after_text;
                    self.processed_parameters = self.processed_parameters + 1;
                    Some(Ok(parameter))
                },
                Err(err) => {
                    self.errored = true;
                    Some(Err(MethodDescriptorError::ParameterTypeError(err, self.processed_parameters)))
                },
            }
        }
    }

    /// The return type, once every parameter has been read.
    pub fn finish_return_type(self) -> (r: Result<Option<DescriptorType>, MethodDescriptorError>)
        requires
            self@.got_all_parameters,
            !self@.errored,
        ensures
            match spec_return(self@.text) {
                Ok(None) => r == Ok::<Option<DescriptorType>, MethodDescriptorError>(None),
                Ok(Some(v)) => r matches Ok(Some(w)) && w@ == v,
                Err(e) => r == Err::<Option<DescriptorType>, MethodDescriptorError>(e),
            },
    {
        if self.text.len() > 0 {
            if self.text[0] == TAG_VOID {
                Ok(None)
            } else {
                let (typ, after_text) = match DescriptorType::parse(self.text) {
                    Ok(v) => v,
                    Err(e) => return Err(MethodDescriptorError::ReturnTypeError(e)),
                };
                if after_text.len() > 0 {
                    return Err(MethodDescriptorError::RemainingData);
                }
                Ok(Some(typ))
            }
        } else {
            Err(MethodDescriptorError::NoReturnType)
        }
    }
}

impl MethodDescriptor {
    /// Parses a whole method descriptor.
    pub fn parse(text: &[u8]) -> (r: Result<MethodDescriptor, MethodDescriptorError>)
        ensures
            match spec_method_descriptor(text@) {
                Ok(m) => r matches Ok(d) && d@ == m,
                Err(e) => r == Err::<MethodDescriptor, MethodDescriptorError>(e),
            },
    {
        let mut iter = match MethodDescriptor::parse_iter(text) {
            Ok(it) => it,
            Err(e) => return Err(e),
        };
        let ghost whole = spec_params(text@.skip(1), 0);
        let mut parameter_types: Vec<DescriptorType> = Vec::new();
        let mut done = false;
        while !done
            invariant
                text@.len() > 0 && text@[0] == PARAMS_OPEN,
                whole == spec_params(text@.skip(1), 0),
                !iter@.errored,
                iter@.processed == parameter_types@.len(),
                !done ==> !iter@.got_all_parameters && whole == params_after(
                    types_view(parameter_types@),
                    spec_params(iter@.text, iter@.processed),
                ),
                done ==> iter@.got_all_parameters && whole == Ok::<
                    (Seq<TypeModel>, Seq<u8>),
                    MethodDescriptorError,
                >((types_view(parameter_types@), iter@.text)),
            decreases iter@.text.len() + if done { 0int } else { 1 },
        {
            let ghost before = iter@;
            proof {
                lemma_type_span(before.text);
            }
            match iter.next() {
                None => {
                    assert(types_view(parameter_types@) + Seq::empty() =~= types_view(parameter_types@));
                    done = true;
                },
                Some(Ok(p)) => {
                    proof {
                        let (v, k) = spec_type(before.text)->Ok_0;
                        let rest = spec_params(before.text.skip(k), before.processed + 1);
                        if let Ok((vs, r)) = rest {
                            assert(types_view(parameter_types@.push(p)) =~= types_view(parameter_types@).push(v));
                            assert(types_view(parameter_types@) + (seq![v] + vs) =~= types_view(parameter_types@).push(v) + vs);
                        }
                        else {
                            assert(types_view(parameter_types@.push(p)) =~= types_view(parameter_types@).push(v));
                        }
                    }
                    parameter_types.push(p);
                },
                Some(Err(e)) => {
                    return Err(e);
                },
            }
        }
        let return_type = match iter.finish_return_type() {
            Ok(t) => t,
            Err(e) => return Err(e),
        };
        Ok(MethodDescriptor { parameter_types, return_type })
    }

    /// An iterator over the parameter types of `text`.
    pub fn parse_iter<'a>(text: &'a [u8]) -> (r: Result<MethodDescriptorParserIterator<'a>, MethodDescriptorError>)
        ensures
            text@.len() == 0 ==> r == Err::<MethodDescriptorParserIterator<'a>, MethodDescriptorError>(
                MethodDescriptorError::Empty,
            ),
            text@.len() > 0 && text@[0] != PARAMS_OPEN ==> r == Err::<
                MethodDescriptorParserIterator<'a>,
                MethodDescriptorError,
            >(MethodDescriptorError::NoOpeningBracket),
            text@.len() > 0 && text@[0] == PARAMS_OPEN ==> (r matches Ok(it) && it@ == ParamsState {
                text: text@.skip(1),
                got_all_parameters: false,
                errored: false,
                processed: 0,
            }),
    {
        MethodDescriptorParserIterator::new(text)
    }

    /// The same descriptor, owning all of its data; a parsed descriptor
    /// already owns it.
    pub fn to_owned(self) -> (r: MethodDescriptor)
        ensures
            r@ == self@,
    {
        self
    }
}

} // verus!
