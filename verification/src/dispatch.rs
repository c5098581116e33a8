//! Dispatch errors, the dispatch table builder, and call routing.
//!
//! The builder accumulates one constructor and N external-method entries
//! (each tagged mutable or read-only), computing each entry's selector from
//! its canonical signature. Freezing rejects duplicate selectors, so a
//! frozen table routes every registered selector to exactly one handler.

use vstd::prelude::*;
use crate::CallMode;
use crate::hash::HashFamily;
use crate::selector::{compute_selector, selector_of, selector_pack, signature_of};

verus! {

/// The three ways routing a call can fail before its handler runs.
#[derive(PartialEq, Eq, Structural, Clone, Copy, Debug)]
pub enum DispatchError {
    UnknownSelector,
    InvalidParams,
    CouldNotReadInput,
}

/// A dispatch outcome as conveyed to the node: a success flag and a short
/// diagnostic string.
pub struct DispatchRetInfo(pub bool, pub &'static str);

/// What one whole dispatch returns to the entry point.
pub type DispatchResult = Result<(), DispatchError>;

impl From<DispatchError> for DispatchRetInfo {
    fn from(err: DispatchError) -> (r: Self) {
        match err {
            DispatchError::UnknownSelector => DispatchRetInfo(false, "unknown selector"),
            DispatchError::InvalidParams => DispatchRetInfo(false, "invalid params"),
            DispatchError::CouldNotReadInput => DispatchRetInfo(false, "could not read input"),
        }
    }
}

impl vstd::std_specs::convert::FromSpecImpl<DispatchError> for DispatchRetInfo {
    open spec fn obeys_from_spec() -> bool {
        true
    }

    open spec fn from_spec(err: DispatchError) -> Self {
        match err {
            DispatchError::UnknownSelector => DispatchRetInfo(false, "unknown selector"),
            DispatchError::InvalidParams => DispatchRetInfo(false, "invalid params"),
            DispatchError::CouldNotReadInput => DispatchRetInfo(false, "could not read input"),
        }
    }
}

impl From<DispatchResult> for DispatchRetInfo {
    fn from(result: DispatchResult) -> (r: Self) {
        match result {
            Ok(_) => DispatchRetInfo(true, ""),
            Err(error) => DispatchRetInfo::from(error),
        }
    }
}

impl vstd::std_specs::convert::FromSpecImpl<DispatchResult> for DispatchRetInfo {
    open spec fn obeys_from_spec() -> bool {
        true
    }

    open spec fn from_spec(result: DispatchResult) -> Self {
        match result {
            Ok(_) => DispatchRetInfo(true, ""),
            Err(error) => <DispatchRetInfo as vstd::std_specs::convert::FromSpec<
                DispatchError,
            >>::from_spec(error),
        }
    }
}

impl DispatchRetInfo {
    /// The diagnostic string, as an owned value.
    pub fn get_info_string(&self) -> (r: String)
        ensures
            r@ == self.1@,
    {
        self.1.to_owned()
    }

    /// Whether the dispatch succeeded.
    pub fn is_success(&self) -> (r: bool)
        ensures
            r == self.0,
    {
        self.0
    }
}

/// The ways freezing a dispatch table can fail.
#[derive(PartialEq, Eq, Structural, Clone, Copy, Debug)]
pub enum BuildError {
    MissingConstructor,
    ConstructorAlreadyRegistered,
    DuplicateSelector,
}

/// One registered external method: its canonical signature parts, its
/// declared mutability, and the selector computed from the signature.
pub struct ExternalFn {
    pub name: String,
    pub arg_types: Vec<String>,
    pub mutable: bool,
    pub selector: u32,
}

impl ExternalFn {
    /// The entry's selector really is the selector of its signature.
    pub open spec fn wf(&self, family: HashFamily) -> bool {
        self.selector == selector_of(
            family,
            signature_of(self.name@, self.arg_types.deep_view()),
        )
    }
}

/// No two entries share a selector.
pub open spec fn distinct_selectors(entries: Seq<ExternalFn>) -> bool {
    forall|i: int, j: int|
        0 <= i < j < entries.len() ==> entries[i].selector != entries[j].selector
}

/// The index of the first entry carrying `sel`, if any.
pub open spec fn find_selector(entries: Seq<ExternalFn>, sel: u32) -> Option<int>
    decreases entries.len(),
{
    if entries.len() == 0 {
        None
    } else if entries[0].selector == sel {
        Some(0)
    } else {
        match find_selector(entries.drop_first(), sel) {
            Some(i) => Some(i + 1),
            None => None,
        }
    }
}

/// What `find_selector` returns: the first matching index, or `None` when
/// no entry matches.
pub proof fn lemma_find_selector(entries: Seq<ExternalFn>, sel: u32)
    ensures
        (match find_selector(entries, sel) {
            Some(k) => 0 <= k < entries.len() && entries[k].selector == sel && (forall|j: int|
                0 <= j < k ==> entries[j].selector != sel),
            None => forall|j: int| 0 <= j < entries.len() ==> entries[j].selector != sel,
        }),
    decreases entries.len(),
{
    if entries.len() > 0 && entries[0].selector != sel {
        lemma_find_selector(entries.drop_first(), sel);
        assert forall|j: int| 0 <= j < entries.len() - 1 implies entries.drop_first()[j]
            == entries[j + 1] by {}
        match find_selector(entries.drop_first(), sel) {
            Some(k) => {
                assert(entries.drop_first()[k] == entries[k + 1]);
                assert forall|j: int| 0 <= j < k + 1 implies entries[j].selector != sel by {
                    if j > 0 {
                        assert(entries.drop_first()[j - 1] == entries[j]);
                    }
                }
            },
            None => {
                assert forall|j: int| 0 <= j < entries.len() implies entries[j].selector != sel by {
                    if j > 0 {
                        assert(entries.drop_first()[j - 1] == entries[j]);
                    }
                }
            },
        }
    }
}

/// Accumulates the constructor and the external methods at setup time.
pub struct DispatchTableBuilder {
    pub family: HashFamily,
    pub has_constructor: bool,
    pub entries: Vec<ExternalFn>,
}

/// The frozen routing table: immutable once built.
pub struct DispatchTable {
    pub family: HashFamily,
    pub entries: Vec<ExternalFn>,
}

impl DispatchTableBuilder {
    pub open spec fn wf(&self) -> bool {
        forall|i: int| 0 <= i < self.entries@.len() ==> (#[trigger] self.entries@[i]).wf(
            self.family,
        )
    }

    /// An empty builder for the chosen hash family.
    pub fn new(family: HashFamily) -> (r: Self)
        ensures
            r.wf(),
            r.family == family,
            !r.has_constructor,
            r.entries@.len() == 0,
    {
        DispatchTableBuilder { family, has_constructor: false, entries: Vec::new() }
    }

    /// Registers the contract's one constructor handler; registering it a
    /// second time is refused.
    pub fn register_constructor(&mut self) -> (r: Result<(), BuildError>)
        ensures
            final(self).family == old(self).family,
            final(self).entries@ == old(self).entries@,
            old(self).has_constructor ==> r == Err::<(), BuildError>(
                BuildError::ConstructorAlreadyRegistered,
            ) && !final(self).has_constructor == !old(self).has_constructor,
            !old(self).has_constructor ==> r == Ok::<(), BuildError>(())
                && final(self).has_constructor,
    {
        if self.has_constructor {
            Err(BuildError::ConstructorAlreadyRegistered)
        } else {
            self.has_constructor = true;
            Ok(())
        }
    }

    /// Registers one external method under the selector of its canonical
    /// signature and returns the handler index routing will use for it.
    pub fn register_external(
        &mut self,
        name: &str,
        arg_types: Vec<String>,
        mutable: bool,
    ) -> (idx: usize)
        ensures
            final(self).family == old(self).family,
            final(self).has_constructor == old(self).has_constructor,
            idx == old(self).entries@.len(),
            final(self).entries@.len() == old(self).entries@.len() + 1,
            forall|i: int|
                0 <= i < old(self).entries@.len() ==> final(self).entries@[i] == old(
                    self,
                ).entries@[i],
            final(self).entries@[idx as int].name@ == name@,
            final(self).entries@[idx as int].arg_types.deep_view() == arg_types.deep_view(),
            final(self).entries@[idx as int].mutable == mutable,
            final(self).entries@[idx as int].selector == selector_of(
                old(self).family,
                signature_of(name@, arg_types.deep_view()),
            ),
            old(self).wf() ==> final(self).wf(),
    {
        let selector = compute_selector(self.family, name, &arg_types);
        let idx = self.entries.len();
        let entry = ExternalFn { name: name.to_owned(), arg_types, mutable, selector };
        self.entries.push(entry);
        idx
    }

    /// Freezes the builder into an immutable table. Fails if the
    /// constructor is missing or two entries share a selector; succeeds
    /// exactly otherwise, and the frozen table's selectors are then
    /// pairwise distinct.
    pub fn done(self) -> (r: Result<DispatchTable, BuildError>)
        ensures
            (match r {
                Ok(table) => self.has_constructor && distinct_selectors(self.entries@)
                    && table.family == self.family && table.entries@ == self.entries@,
                Err(e) => {
                    &&& (e == BuildError::MissingConstructor || e == BuildError::DuplicateSelector)
                    &&& (e == BuildError::MissingConstructor <==> !self.has_constructor)
                    &&& (e == BuildError::DuplicateSelector ==> !distinct_selectors(self.entries@))
                },
            }),
            r is Ok <==> self.has_constructor && distinct_selectors(self.entries@),
    {
        if !self.has_constructor {
            return Err(BuildError::MissingConstructor);
        }
        let n = self.entries.len();
        let mut i: usize = 0;
        while i < n
            invariant
                self.has_constructor,
                n == self.entries@.len(),
                i <= n,
                forall|p: int, q: int|
                    0 <= p < i && p < q < n ==> self.entries@[p].selector
                        != self.entries@[q].selector,
            decreases n - i,
        {
            let mut j: usize = i + 1;
            while j < n
                invariant
                    self.has_constructor,
                    n == self.entries@.len(),
                    i < n,
                    i < j <= n,
                    forall|q: int|
                        i < q < j ==> self.entries@[i as int].selector != self.entries@[q].selector,
                decreases n - j,
            {
                if self.entries[i].selector == self.entries[j].selector {
                    assert(!distinct_selectors(self.entries@)) by {
                        assert(self.entries@[i as int].selector == self.entries@[j as int].selector);
                    }
                    return Err(BuildError::DuplicateSelector);
                }
                j = j + 1;
            }
            i = i + 1;
        }
        Ok(DispatchTable { family: self.family, entries: self.entries })
    }
}

impl DispatchTable {
    pub open spec fn wf(&self) -> bool {
        &&& forall|i: int|
            0 <= i < self.entries@.len() ==> (#[trigger] self.entries@[i]).wf(self.family)
        &&& distinct_selectors(self.entries@)
    }

    /// How many external methods the table routes to.
    pub fn num_methods(&self) -> (r: usize)
        ensures
            r == self.entries@.len(),
    {
        self.entries.len()
    }
}

/// A selector's wire shape: its four bytes, big-endian.
pub open spec fn selector_bytes(sel: u32) -> Seq<u8> {
    seq![(sel >> 24) as u8, (sel >> 16) as u8, (sel >> 8) as u8, sel as u8]
}

/// The four wire bytes of a selector, for building call data.
pub fn selector_to_bytes(sel: u32) -> (r: Vec<u8>)
    ensures
        r@ == selector_bytes(sel),
{
    let mut out: Vec<u8> = Vec::new();
    out.push((sel >> 24) as u8);
    out.push((sel >> 16) as u8);
    out.push((sel >> 8) as u8);
    out.push(sel as u8);
    proof {
        assert(out@ =~= selector_bytes(sel));
    }
    out
}

/// Reading back the four wire bytes of a selector recovers it, whatever
/// payload follows.
pub proof fn lemma_selector_bytes_pack(sel: u32, rest: Seq<u8>)
    ensures
        selector_pack(selector_bytes(sel) + rest) == sel,
{
    let b = selector_bytes(sel) + rest;
    assert(b[0] == (sel >> 24) as u8);
    assert(b[1] == (sel >> 16) as u8);
    assert(b[2] == (sel >> 8) as u8);
    assert(b[3] == sel as u8);
    assert(((((sel >> 24) as u8) as u32) << 24) | ((((sel >> 16) as u8) as u32) << 16) | ((((sel
        >> 8) as u8) as u32) << 8) | ((sel as u8) as u32) == sel) by (bit_vector);
}

/// The selector carried by call-mode input: its first four bytes.
pub fn read_selector(input: &Vec<u8>) -> (r: u32)
    requires
        input@.len() >= 4,
    ensures
        r == selector_pack(input@),
{
    ((input[0] as u32) << 24) | ((input[1] as u32) << 16) | ((input[2] as u32) << 8) | (
    input[3] as u32)
}

/// A copy of `input` from `start` on.
pub fn tail_from(input: &Vec<u8>, start: usize) -> (r: Vec<u8>)
    requires
        start <= input@.len(),
    ensures
        r@ == input@.skip(start as int),
{
    let mut out: Vec<u8> = Vec::new();
    let n = input.len();
    let mut i: usize = start;
    while i < n
        invariant
            start <= i <= n,
            n == input@.len(),
            out@ == input@.subrange(start as int, i as int),
        decreases n - i,
    {
        out.push(input[i]);
        proof {
            assert(out@ =~= input@.subrange(start as int, i + 1 as int));
        }
        i = i + 1;
    }
    proof {
        assert(input@.subrange(start as int, n as int) =~= input@.skip(start as int));
    }
    out
}

/// What the dispatcher decided to do with one invocation's raw bytes:
/// run the constructor on the whole input, or run the external method at
/// `index` on the bytes after the selector.
pub enum Decision {
    Deploy { payload: Vec<u8> },
    Invoke { index: usize, mutable: bool, payload: Vec<u8> },
}

/// Routes one invocation's raw bytes.
///
/// Deploy mode never looks at the table: the whole input is the
/// constructor's payload. Call mode requires at least the four selector
/// bytes, then routes to the unique entry carrying that selector, handing
/// it the remaining bytes; an unmatched selector is refused.
pub fn route(table: &DispatchTable, mode: CallMode, input: &Vec<u8>) -> (r: Result<
    Decision,
    DispatchError,
>)
    ensures
        mode == CallMode::Deploy ==> (r matches Ok(d) && d matches Decision::Deploy { payload }
            && payload@ == input@),
        mode == CallMode::Call && input@.len() < 4 ==> r == Err::<Decision, DispatchError>(
            DispatchError::CouldNotReadInput,
        ),
        mode == CallMode::Call && input@.len() >= 4 ==> (match find_selector(
            table.entries@,
            selector_pack(input@),
        ) {
            Some(k) => r matches Ok(d) && d matches Decision::Invoke { index, mutable, payload }
                && index == k && mutable == table.entries@[k].mutable && payload@ == input@.skip(4),
            None => r == Err::<Decision, DispatchError>(DispatchError::UnknownSelector),
        }),
{
    match mode {
        CallMode::Deploy => {
            let payload = tail_from(input, 0);
            proof {
                assert(input@.skip(0) =~= input@);
            }
            Ok(Decision::Deploy { payload })
        },
        CallMode::Call => {
            if input.len() < 4 {
                return Err(DispatchError::CouldNotReadInput);
            }
            let sel = read_selector(input);
            let n = table.entries.len();
            let mut k: usize = 0;
            while k < n
                invariant
                    mode == CallMode::Call,
                    k <= n,
                    n == table.entries@.len(),
                    input@.len() >= 4,
                    sel == selector_pack(input@),
                    forall|j: int| 0 <= j < k ==> table.entries@[j].selector != sel,
                decreases n - k,
            {
                if table.entries[k].selector == sel {
                    proof {
                        lemma_find_selector(table.entries@, sel);
                        match find_selector(table.entries@, sel) {
                            Some(k0) => {
                                if k0 < k as int {
                                    assert(table.entries@[k0].selector != sel);
                                } else if k0 > k as int {
                                    assert(table.entries@[k as int].selector != sel);
                                }
                            },
                            None => {
                                assert(table.entries@[k as int].selector != sel);
                            },
                        }
                    }
                    let mutable = table.entries[k].mutable;
                    let payload = tail_from(input, 4);
                    return Ok(Decision::Invoke { index: k, mutable, payload });
                }
                k = k + 1;
            }
            proof {
                lemma_find_selector(table.entries@, sel);
            }
            Err(DispatchError::UnknownSelector)
        },
    }
}

/// Law: exact routing. In a well-formed frozen table, call-mode input built
/// as the four selector bytes of entry `i` followed by any payload carries
/// entry `i`'s selector, and lookup resolves it to exactly index `i`.
pub proof fn lemma_exact_routing(table: DispatchTable, i: int, payload: Seq<u8>)
    requires
        table.wf(),
        0 <= i < table.entries@.len(),
    ensures
        selector_pack(selector_bytes(table.entries@[i].selector) + payload) == table.entries@[
            i
        ].selector,
        find_selector(
            table.entries@,
            selector_pack(selector_bytes(table.entries@[i].selector) + payload),
        ) == Some(i),
{
    let sel = table.entries@[i].selector;
    lemma_selector_bytes_pack(sel, payload);
    lemma_find_selector(table.entries@, sel);
    match find_selector(table.entries@, sel) {
        Some(k) => {
            if i < k {
                assert(table.entries@[i].selector != sel);
            } else if k < i {
                assert(table.entries@[k].selector != table.entries@[i].selector);
            }
        },
        None => {
            assert(table.entries@[i].selector != sel);
        },
    }
}

/// Law: a builder holding two methods with the same (name, argument types)
/// signature cannot be frozen — their selectors are equal, so freezing
/// reports a duplicate.
pub proof fn lemma_duplicate_signature_rejected(builder: DispatchTableBuilder, i: int, j: int)
    requires
        builder.wf(),
        0 <= i < j < builder.entries@.len(),
        builder.entries@[i].name@ == builder.entries@[j].name@,
        builder.entries@[i].arg_types.deep_view() == builder.entries@[j].arg_types.deep_view(),
    ensures
        builder.entries@[i].selector == builder.entries@[j].selector,
        !distinct_selectors(builder.entries@),
{
    assert(builder.entries@[i].wf(builder.family));
    assert(builder.entries@[j].wf(builder.family));
}

} // verus!
