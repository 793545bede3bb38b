//! What the ZKP frontend hands to a proof system: field elements, gadgets,
//! and the operations of a lowered program.

use crate::common::CompilationResult;
use crate::error::Error;
use crate::graph::{NodeIndex, ViewEq};
use crate::zkp::ZkpContext;
use crypto_bigint::U512;
use vstd::prelude::*;
use crate::render::{hexadecimal, push_hexadecimal};
use vstd::string::{StrSliceExecFns, StringExecFns};

verus! {

/// The value of a hexadecimal digit.
pub open spec fn hex_digit(c: char) -> nat {
    if '0' <= c <= '9' {
        (c as u32 - '0' as u32) as nat
    } else if 'a' <= c <= 'f' {
        (10 + c as u32 - 'a' as u32) as nat
    } else {
        (10 + c as u32 - 'A' as u32) as nat
    }
}

/// Whether the character is one of `0`-`9`, `a`-`f` or `A`-`F`.
pub open spec fn is_hex_digit(c: char) -> bool {
    '0' <= c <= '9' || 'a' <= c <= 'f' || 'A' <= c <= 'F'
}

/// The number that a string of hexadecimal digits writes, most
/// significant digit first.
pub open spec fn hex_value(digits: Seq<char>) -> nat
    decreases digits.len(),
{
    if digits.len() == 0 {
        0
    } else {
        hex_value(digits.drop_last()) * 16 + hex_digit(digits.last())
    }
}

/// Whether the string writes a 512-bit number: 128 hexadecimal digits.
pub open spec fn is_be_hex(hex: Seq<char>) -> bool {
    &&& hex.len() == 128
    &&& forall|i: int| 0 <= i < hex.len() ==> is_hex_digit(#[trigger] hex[i])
}

/// `U512::from_be_hex`, and `to_words` on what it gives. The string is
/// read as a big-endian number, sixteen digits to a word, so the last
/// sixteen digits make the least significant word, which is word 0. The
/// call panics on a string of another length or with another character,
/// so both are ruled out.
#[verifier::external_body]
fn words_from_be_hex(hex: &str) -> (words: [u64; 8])
    requires
        is_be_hex(hex@),
    ensures
        forall|i: int|
            0 <= i < 8 ==> #[trigger] words@[i] == hex_value(
                hex@.subrange(16 * (7 - i), 16 * (8 - i)),
            ),
{
    U512::from_be_hex(hex).to_words()
}

/// A 512-bit unsigned integer that stands for a field element of any
/// backend, as eight 64-bit words, least significant first.
#[derive(Debug, Clone, Copy, Hash, Eq, PartialEq)]
pub struct BigInt {
    pub words: [u64; 8],
}

impl View for BigInt {
    type V = Seq<u64>;

    open spec fn view(&self) -> Seq<u64> {
        self.words@
    }
}

impl ViewEq for BigInt {
    fn same(&self, other: &Self) -> (r: bool) {
        let mut i: usize = 0;
        while i < 8
            invariant
                i <= 8,
                forall|j: int| 0 <= j < i ==> self.words@[j] == other.words@[j],
            decreases 8 - i,
        {
            if self.words[i] != other.words[i] {
                return false;
            }
            i = i + 1;
        }
        assert(self.words@ =~= other.words@);
        true
    }
}

impl BigInt {
    /// The integer with the given words, least significant first.
    pub fn from_words(val: [u64; 8]) -> (r: Self)
        ensures
            r@ == val@,
    {
        BigInt { words: val }
    }

    /// The integer with the value of the given `u32`.
    pub fn from_u32(val: u32) -> (r: Self)
        ensures
            r@ == seq![val as u64, 0u64, 0u64, 0u64, 0u64, 0u64, 0u64, 0u64],
    {
        let r = BigInt { words: [val as u64, 0, 0, 0, 0, 0, 0, 0] };
        assert(r@ =~= seq![val as u64, 0u64, 0u64, 0u64, 0u64, 0u64, 0u64, 0u64]);
        r
    }

    /// Whether the string can be read by `from_be_hex`: whether it is made
    /// of 128 hexadecimal digits.
    pub fn is_valid_be_hex(hex_str: &str) -> (r: bool)
        ensures
            r == is_be_hex(hex_str@),
    {
        if hex_str.unicode_len() != 128 {
            return false;
        }
        let mut i: usize = 0;
        while i < 128
            invariant
                hex_str@.len() == 128,
                i <= 128,
                forall|j: int| 0 <= j < i ==> is_hex_digit(#[trigger] hex_str@[j]),
            decreases 128 - i,
        {
            let c = hex_str.get_char(i);
            if !(('0' <= c && c <= '9') || ('a' <= c && c <= 'f') || ('A' <= c && c <= 'F')) {
                return false;
            }
            i = i + 1;
        }
        true
    }

    /// The integer that the string writes in hexadecimal, most significant
    /// digit first: word `i` is the value of the sixteen digits that end
    /// `16 * i` digits before the end of the string.
    pub fn from_be_hex(hex_str: &str) -> (r: Self)
        requires
            is_be_hex(hex_str@),
        ensures
            r@.len() == 8,
            forall|i: int|
                0 <= i < 8 ==> #[trigger] r@[i] == hex_value(
                    hex_str@.subrange(16 * (7 - i), 16 * (8 - i)),
                ),
    {
        BigInt { words: words_from_be_hex(hex_str) }
    }

    /// The integer as text: `0x` and then its 128 hexadecimal digits,
    /// most significant first.
    pub fn render(&self) -> (text: String)
        ensures
            text@ == big_int_text(self@),
    {
        let mut text = String::from_str("0x");
        let mut i: usize = 8;
        while i > 0
            invariant
                i <= 8,
                text@ == "0x"@ + words_text(self@, i as int),
            decreases i,
        {
            i = i - 1;
            push_hexadecimal(&mut text, self.words[i], 16);
            assert(text@ =~= "0x"@ + words_text(self@, i as int));
        }
        text
    }

    /// The value 0.
    pub fn zero() -> (r: Self)
        ensures
            r@ == seq![0u64, 0u64, 0u64, 0u64, 0u64, 0u64, 0u64, 0u64],
    {
        BigInt::from_u32(0)
    }

    /// The value 1.
    pub fn one() -> (r: Self)
        ensures
            r@ == seq![1u64, 0u64, 0u64, 0u64, 0u64, 0u64, 0u64, 0u64],
    {
        BigInt::from_u32(1)
    }
}

/// The hexadecimal digits of the words from the most significant down to
/// word `from`, sixteen digits to a word.
pub open spec fn words_text(words: Seq<u64>, from: int) -> Seq<char>
    decreases 8 - from,
{
    if from >= 8 {
        Seq::empty()
    } else {
        words_text(words, from + 1) + hexadecimal(words[from] as nat, 16)
    }
}

/// A field element as text: `0x` and then its 128 hexadecimal digits, most
/// significant first.
pub open spec fn big_int_text(words: Seq<u64>) -> Seq<char> {
    "0x"@ + words_text(words, 0)
}

/// What identifies a gadget and fixes its arity: its name, the number of
/// inputs it takes, and the number of hidden inputs it introduces.
#[derive(Clone, Copy, Debug, PartialEq, Eq, Hash)]
pub struct GadgetDescriptor {
    pub name: &'static str,
    pub gadget_input_count: usize,
    pub hidden_input_count: usize,
}

/// What a gadget descriptor stands for.
pub struct GadgetDescriptorView {
    pub name: Seq<char>,
    pub gadget_input_count: usize,
    pub hidden_input_count: usize,
}

impl View for GadgetDescriptor {
    type V = GadgetDescriptorView;

    open spec fn view(&self) -> GadgetDescriptorView {
        GadgetDescriptorView {
            name: self.name@,
            gadget_input_count: self.gadget_input_count,
            hidden_input_count: self.hidden_input_count,
        }
    }
}

/// Whether two strings hold the same characters.
pub fn same_str(a: &str, b: &str) -> (r: bool)
    ensures
        r == (a@ == b@),
{
    let len: usize = a.unicode_len();
    if len != b.unicode_len() {
        return false;
    }
    let mut i: usize = 0;
    while i < len
        invariant
            len == a@.len(),
            len == b@.len(),
            i <= len,
            forall|j: int| 0 <= j < i ==> a@[j] == b@[j],
        decreases len - i,
    {
        if a.get_char(i) != b.get_char(i) {
            return false;
        }
        i = i + 1;
    }
    assert(a@ =~= b@);
    true
}

impl ViewEq for GadgetDescriptor {
    fn same(&self, other: &Self) -> (r: bool) {
        same_str(self.name, other.name) && self.gadget_input_count == other.gadget_input_count
            && self.hidden_input_count == other.hidden_input_count
    }
}

/// A sub-circuit that takes inputs, introduces hidden inputs whose values
/// the prover computes outside the graph, and proves a relation between
/// them.
///
/// The counts a gadget reports should not change from call to call, and
/// its name should tell it from every other gadget.
pub trait Gadget {
    /// Adds the gadget's sub-circuit to the context and returns the nodes
    /// of its outputs. `gadget_inputs` are the nodes of the gadget's
    /// inputs and `hidden_inputs` the nodes of its hidden inputs.
    ///
    /// The gadget is handed a sound context that holds every node it is
    /// given, and each hidden input is a hidden-input node that carries its
    /// position.
    fn gen_circuit(
        &self,
        ctx: &mut ZkpContext,
        gadget_inputs: &[NodeIndex],
        hidden_inputs: &[NodeIndex],
    ) -> Vec<NodeIndex>
        requires
            old(ctx).wf(),
            forall|i: int|
                0 <= i < gadget_inputs@.len() ==> (#[trigger] gadget_inputs@[i]).0 < old(
                    ctx,
                )@.nodes.len(),
            forall|i: int|
                0 <= i < hidden_inputs@.len() ==> {
                    &&& (#[trigger] hidden_inputs@[i]).0 < old(ctx)@.nodes.len()
                    &&& old(ctx)@.nodes[hidden_inputs@[i].0 as int] == OperationView::HiddenInput(
                        i as usize,
                    )
                },
    ;

    /// Computes the value of each hidden input from the values of the
    /// gadget's inputs.
    fn compute_inputs(&self, gadget_inputs: &[BigInt]) -> Vec<BigInt>;

    /// The number of inputs the gadget takes.
    fn gadget_input_count(&self) -> usize;

    /// The number of hidden inputs the gadget introduces.
    fn hidden_input_count(&self) -> usize;

    /// The gadget's name, by which its invocations are told apart and
    /// rendered.
    fn debug_name(&self) -> &'static str;
}

/// A proof of a rank-1 constraint system.
#[derive(Clone)]
pub enum Proof {
    /// A proof of a proof system that another crate provides.
    Custom {
        /// The name of the proof system.
        name: String,
        /// The proof data.
        data: Vec<u8>,
    },
}

/// An operation of a lowered ZKP program.
#[derive(Clone, Copy, Debug, PartialEq, Eq, Hash)]
pub enum Operation {
    PrivateInput(usize),
    PublicInput(usize),
    ConstantInput(usize),
    HiddenInput(usize),
    Constraint(BigInt),
    Constant(BigInt),
    InvokeGadget(GadgetDescriptor),
    Add,
    Sub,
    Mul,
    Neg,
}

/// What an operation of a lowered ZKP program stands for.
pub enum OperationView {
    PrivateInput(usize),
    PublicInput(usize),
    ConstantInput(usize),
    HiddenInput(usize),
    Constraint(Seq<u64>),
    Constant(Seq<u64>),
    InvokeGadget(GadgetDescriptorView),
    Add,
    Sub,
    Mul,
    Neg,
}

impl View for Operation {
    type V = OperationView;

    open spec fn view(&self) -> OperationView {
        match self {
            Operation::PrivateInput(x) => OperationView::PrivateInput(*x),
            Operation::PublicInput(x) => OperationView::PublicInput(*x),
            Operation::ConstantInput(x) => OperationView::ConstantInput(*x),
            Operation::HiddenInput(x) => OperationView::HiddenInput(*x),
            Operation::Constraint(x) => OperationView::Constraint(x@),
            Operation::Constant(x) => OperationView::Constant(x@),
            Operation::InvokeGadget(g) => OperationView::InvokeGadget(g@),
            Operation::Add => OperationView::Add,
            Operation::Sub => OperationView::Sub,
            Operation::Mul => OperationView::Mul,
            Operation::Neg => OperationView::Neg,
        }
    }
}

/// A ZKP program in the vocabulary of the proof systems, its nodes
/// numbered from zero without gaps.
pub type CompiledZkpProgram = CompilationResult<Operation>;

/// What a type must offer to serve as a proof system.
pub trait ZkpBackend {
    /// The programs that the proof system runs.
    type Program;

    /// Creates a proof for the given program with the given inputs.
    fn prove(&self, graph: &Self::Program, inputs: &[BigInt]) -> Result<Proof, Error>;

    /// Verifies the given proof for the given program.
    fn verify(&self, graph: &Self::Program, proof: &Proof) -> Result<(), Error>;

    /// Turns a compiled program into one that a prover can run.
    fn jit_prover(
        &self,
        prog: &CompiledZkpProgram,
        constant_inputs: &[BigInt],
        public_inputs: &[BigInt],
        private_inputs: &[BigInt],
    ) -> Result<Self::Program, Error>;

    /// Turns a compiled program into one that a verifier can run.
    fn jit_verifier(
        &self,
        prog: &CompiledZkpProgram,
        constant_inputs: &[BigInt],
        public_inputs: &[BigInt],
    ) -> Result<Self::Program, Error>;
}

/// A conversion from `T`, for types that cannot have `From<T>`.
pub trait ZkpFrom<T>: Sized {
    /// Converts `val`.
    fn from(val: T) -> Self;
}

/// A conversion into `T`, for types that cannot have `Into<T>`.
pub trait ZkpInto<T> {
    /// What the conversion of this value may give.
    spec fn converts_to(self, converted: T) -> bool;

    /// Converts the value.
    fn into(self) -> (converted: T)
        ensures
            self.converts_to(converted),
    ;
}

impl<T, U> ZkpInto<T> for U where T: ZkpFrom<U> {
    /// A value converts to what `T::from` may give for it.
    open spec fn converts_to(self, converted: T) -> bool {
        call_ensures(T::from, (self,), converted)
    }

    fn into(self) -> T {
        T::from(self)
    }
}

/// The field of a proof system, such as the scalars of a curve.
pub trait BackendField:
    core::ops::Add<Self, Output = Self>
    + core::ops::Sub<Self, Output = Self>
    + core::ops::Mul<Self, Output = Self>
    + core::ops::Neg<Output = Self>
    + Clone
    + TryFrom<BigInt, Error = Error>
    + ZkpInto<BigInt>
{
}

} // verus!
