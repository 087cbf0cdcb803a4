//! The impl transformer: completes a user impl block so that the four
//! reserved lifecycle slots all exist. A method already carrying a reserved
//! name fills its slot and always wins; a recognized method tag fills a
//! free slot with a wrapper delegating to the tagged method; a slot nobody
//! fills receives its default body. Two tags claiming one slot are a
//! dedicated diagnostic.

use vstd::prelude::*;

use crate::ast::{ImplNode, MacroError, MethodBody, MethodDecl, MethodNode, SlotKind};
use crate::text::{is_ident, str_eq};
use crate::wrapper::generate_wrapper;

verus! {

/// The reserved method name of a lifecycle slot.
pub open spec fn slot_text(s: SlotKind) -> Seq<char> {
    match s {
        SlotKind::CustomInitialize => "__custom_initialize"@,
        SlotKind::PreExecute => "__pre_execute"@,
        SlotKind::OnExecute => "__on_execute"@,
        SlotKind::PostExecute => "__post_execute"@,
    }
}

/// Whether the name is one of the four reserved slot names.
pub open spec fn is_slot_text(t: Seq<char>) -> bool {
    ||| t == "__custom_initialize"@
    ||| t == "__pre_execute"@
    ||| t == "__on_execute"@
    ||| t == "__post_execute"@
}

/// The slot a method tag claims, if the tag is recognized.
pub open spec fn tag_slot(t: Seq<char>) -> Option<SlotKind> {
    if t == "deltaf-init"@ {
        Some(SlotKind::CustomInitialize)
    } else if t == "deltaf-pre"@ {
        Some(SlotKind::PreExecute)
    } else if t == "deltaf-on"@ {
        Some(SlotKind::OnExecute)
    } else if t == "deltaf-post"@ {
        Some(SlotKind::PostExecute)
    } else {
        None
    }
}

/// Whether some method of the block already carries the slot's reserved
/// name.
pub open spec fn has_reserved(ms: Seq<MethodNode>, s: SlotKind) -> bool {
    exists|i: int| 0 <= i < ms.len() && (#[trigger] ms[i]).name@ == slot_text(s)
}

/// How many tags of the list claim the slot.
pub open spec fn tag_count(tags: Seq<String>, s: SlotKind) -> nat
    decreases tags.len(),
{
    if tags.len() == 0 {
        0
    } else {
        tag_count(tags.drop_last(), s) + if tag_slot(tags.last()@) == Some(s) {
            1nat
        } else {
            0nat
        }
    }
}

/// How many of the method's tags claim the slot; a method named with a
/// reserved name never claims by tag, its attributes are passed over.
pub open spec fn method_claims(m: MethodNode, s: SlotKind) -> nat {
    if is_slot_text(m.name@) {
        0
    } else {
        tag_count(m.tags@, s)
    }
}

/// How many tag claims the whole block makes on the slot.
pub open spec fn claim_count(ms: Seq<MethodNode>, s: SlotKind) -> nat
    decreases ms.len(),
{
    if ms.len() == 0 {
        0
    } else {
        claim_count(ms.drop_last(), s) + method_claims(ms.last(), s)
    }
}

/// The first method whose tags claim the slot.
pub open spec fn is_first_claimant(ms: Seq<MethodNode>, k: int, s: SlotKind) -> bool {
    &&& 0 <= k < ms.len()
    &&& method_claims(ms[k], s) > 0
    &&& forall|l: int| 0 <= l < k ==> method_claims(#[trigger] ms[l], s) == 0
}

/// The wrapper a tag claim produces: the reserved name, exposed, taking the
/// receiver, returning the impulse type on the on-slot, and delegating
/// through the receiver to the first claiming method.
pub open spec fn wrapper_decl_for(d: MethodDecl, s: SlotKind, ms: Seq<MethodNode>) -> bool {
    &&& d.name@ == slot_text(s)
    &&& d.public
    &&& d.takes_receiver
    &&& if s is OnExecute {
        d.return_ty matches Some(t) && t@ == "Impulse<i32>"@
    } else {
        d.return_ty is None
    }
    &&& d.body matches MethodBody::Invoke { target, through_self } && through_self && is_ident(
        target@,
    ) && (exists|k: int| is_first_claimant(ms, k, s) && target@ == (#[trigger] ms[k]).name@)
}

/// The default body of a slot nobody fills: empty custom-initialize and
/// pre-execute (the latter private), an on-execute that emits no impulse,
/// and a post-execute that invokes the aggregate reset.
pub open spec fn default_decl_for(d: MethodDecl, s: SlotKind) -> bool {
    match s {
        SlotKind::CustomInitialize => {
            &&& d.name@ == "__custom_initialize"@
            &&& d.public
            &&& d.takes_receiver
            &&& d.return_ty is None
            &&& d.body matches MethodBody::Placeholder(e) && e@ == ""@
        },
        SlotKind::PreExecute => {
            &&& d.name@ == "__pre_execute"@
            &&& !d.public
            &&& d.takes_receiver
            &&& d.return_ty is None
            &&& d.body matches MethodBody::Placeholder(e) && e@ == ""@
        },
        SlotKind::OnExecute => {
            &&& d.name@ == "__on_execute"@
            &&& d.public
            &&& d.takes_receiver
            &&& d.return_ty matches Some(t) && t@ == "Impulse<i32>"@
            &&& d.body matches MethodBody::Placeholder(e) && e@ == "Impulse::<i32>::NOOP"@
        },
        SlotKind::PostExecute => {
            &&& d.name@ == "__post_execute"@
            &&& d.public
            &&& d.takes_receiver
            &&& d.return_ty is None
            &&& d.body matches MethodBody::Invoke { target, through_self } && through_self
                && target@ == "__reset"@
        },
    }
}

/// What the completed block owes an unreserved slot: a delegating wrapper
/// where the block claims it by tag, its default body where nobody does.
pub open spec fn slot_filled_spec(d: MethodDecl, s: SlotKind, ms: Seq<MethodNode>) -> bool {
    if claim_count(ms, s) > 0 {
        wrapper_decl_for(d, s, ms)
    } else {
        default_decl_for(d, s)
    }
}

/// How many generated methods carry the given name.
pub open spec fn count_named(ds: Seq<MethodDecl>, t: Seq<char>) -> nat
    decreases ds.len(),
{
    if ds.len() == 0 {
        0
    } else {
        count_named(ds.drop_last(), t) + if ds.last().name@ == t {
            1nat
        } else {
            0nat
        }
    }
}

/// The transformer succeeds exactly when it was given no arguments, no
/// unreserved slot is claimed by two tags, and every method a wrapper would
/// delegate to has an identifier-shaped name.
pub open spec fn impl_resolves(args: Seq<String>, ms: Seq<MethodNode>) -> bool {
    &&& args.len() == 0
    &&& forall|s: SlotKind| !has_reserved(ms, s) ==> #[trigger] claim_count(ms, s) <= 1
    &&& forall|s: SlotKind, k: int|
        !has_reserved(ms, s) && #[trigger] is_first_claimant(ms, k, s) ==> is_ident(ms[k].name@)
}

/// A user impl block completed by the transformer: the user's methods,
/// untouched, and the synthesized wrappers and defaults to append.
#[derive(Debug, PartialEq)]
pub struct CompletedImpl {
    /// The user's methods, exactly as given.
    pub methods: Vec<MethodNode>,
    /// The synthesized methods, wrappers first, then defaults in slot
    /// order.
    pub generated: Vec<MethodDecl>,
}

/// The four reserved slot names and the aggregate reset name are
/// identifiers.
pub proof fn lemma_slot_idents()
    ensures
        is_ident("__custom_initialize"@),
        is_ident("__pre_execute"@),
        is_ident("__on_execute"@),
        is_ident("__post_execute"@),
        is_ident("__reset"@),
{
    reveal_strlit("__custom_initialize");
    reveal_strlit("__pre_execute");
    reveal_strlit("__on_execute");
    reveal_strlit("__post_execute");
    reveal_strlit("__reset");
}

/// Distinct slots have distinct reserved names.
pub proof fn lemma_slot_text_distinct()
    ensures
        forall|s1: SlotKind, s2: SlotKind|
            #[trigger] slot_text(s1) == #[trigger] slot_text(s2) ==> s1 == s2,
{
    reveal_strlit("__custom_initialize");
    reveal_strlit("__pre_execute");
    reveal_strlit("__on_execute");
    reveal_strlit("__post_execute");
    assert("__custom_initialize"@.len() == 19);
    assert("__pre_execute"@.len() == 13);
    assert("__on_execute"@.len() == 12);
    assert("__post_execute"@.len() == 14);
}

proof fn lemma_tag_count_take_unfold(tags: Seq<String>, j: int, s: SlotKind)
    requires
        0 <= j < tags.len(),
    ensures
        tag_count(tags.take(j + 1), s) == tag_count(tags.take(j), s) + if tag_slot(tags[j]@)
            == Some(s) {
            1nat
        } else {
            0nat
        },
{
    assert(tags.take(j + 1).drop_last() =~= tags.take(j));
    assert(tags.take(j + 1).last() == tags[j]);
}

proof fn lemma_claim_count_take_unfold(ms: Seq<MethodNode>, i: int, s: SlotKind)
    requires
        0 <= i < ms.len(),
    ensures
        claim_count(ms.take(i + 1), s) == claim_count(ms.take(i), s) + method_claims(ms[i], s),
{
    assert(ms.take(i + 1).drop_last() =~= ms.take(i));
    assert(ms.take(i + 1).last() == ms[i]);
}

proof fn lemma_tag_count_pos(tags: Seq<String>, j: int, s: SlotKind)
    requires
        0 <= j < tags.len(),
        tag_slot(tags[j]@) == Some(s),
    ensures
        tag_count(tags, s) > 0,
    decreases tags.len(),
{
    if j < tags.len() - 1 {
        assert(tags.drop_last()[j] == tags[j]);
        lemma_tag_count_pos(tags.drop_last(), j, s);
    }
}

proof fn lemma_tag_count_take_le(tags: Seq<String>, j: int, s: SlotKind)
    requires
        0 <= j <= tags.len(),
    ensures
        tag_count(tags.take(j), s) <= tag_count(tags, s),
    decreases tags.len() - j,
{
    if j == tags.len() {
        assert(tags.take(j) =~= tags);
    } else {
        lemma_tag_count_take_unfold(tags, j, s);
        lemma_tag_count_take_le(tags, j + 1, s);
    }
}

proof fn lemma_claim_count_take_le(ms: Seq<MethodNode>, i: int, s: SlotKind)
    requires
        0 <= i <= ms.len(),
    ensures
        claim_count(ms.take(i), s) <= claim_count(ms, s),
    decreases ms.len() - i,
{
    if i == ms.len() {
        assert(ms.take(i) =~= ms);
    } else {
        lemma_claim_count_take_unfold(ms, i, s);
        lemma_claim_count_take_le(ms, i + 1, s);
    }
}

proof fn lemma_claim_count_zero(ms: Seq<MethodNode>, i: int, l: int, s: SlotKind)
    requires
        0 <= l < i <= ms.len(),
        claim_count(ms.take(i), s) == 0,
    ensures
        method_claims(ms[l], s) == 0,
    decreases i,
{
    assert(ms.take(i).drop_last() =~= ms.take(i - 1));
    assert(ms.take(i).last() == ms[i - 1]);
    if l < i - 1 {
        lemma_claim_count_zero(ms, i - 1, l, s);
    }
}

proof fn lemma_first_claimant_unique(ms: Seq<MethodNode>, k1: int, k2: int, s: SlotKind)
    requires
        is_first_claimant(ms, k1, s),
        is_first_claimant(ms, k2, s),
    ensures
        k1 == k2,
{
    if k1 < k2 {
        assert(method_claims(ms[k1], s) == 0);
    } else if k2 < k1 {
        assert(method_claims(ms[k2], s) == 0);
    }
}

proof fn lemma_count_named_push(ds: Seq<MethodDecl>, d: MethodDecl, t: Seq<char>)
    ensures
        count_named(ds.push(d), t) == count_named(ds, t) + if d.name@ == t {
            1nat
        } else {
            0nat
        },
{
    assert(ds.push(d).drop_last() =~= ds);
    assert(ds.push(d).last() == d);
}

/// Maps a method tag to the slot it claims, if it is recognized.
pub fn tag_slot_of(t: &str) -> (r: Option<SlotKind>)
    ensures
        r == tag_slot(t@),
{
    if str_eq(t, "deltaf-init") {
        Some(SlotKind::CustomInitialize)
    } else if str_eq(t, "deltaf-pre") {
        Some(SlotKind::PreExecute)
    } else if str_eq(t, "deltaf-on") {
        Some(SlotKind::OnExecute)
    } else if str_eq(t, "deltaf-post") {
        Some(SlotKind::PostExecute)
    } else {
        None
    }
}

/// The default custom-initialize: exposed, takes the receiver, does
/// nothing.
pub fn default_custom_initialize() -> (r: MethodDecl)
    ensures
        default_decl_for(r, SlotKind::CustomInitialize),
{
    proof {
        lemma_slot_idents();
    }
    match generate_wrapper("__custom_initialize", "", None, true, true, false) {
        Ok(d) => d,
        Err(_) => {
            proof {
                assert(false);
            }
            MethodDecl {
                name: "__custom_initialize".to_owned(),
                public: true,
                takes_receiver: true,
                return_ty: None,
                body: MethodBody::Placeholder("".to_owned()),
            }
        },
    }
}

/// The default pre-execute: private, takes the receiver, does nothing.
pub fn default_pre_execute() -> (r: MethodDecl)
    ensures
        default_decl_for(r, SlotKind::PreExecute),
{
    proof {
        lemma_slot_idents();
    }
    match generate_wrapper("__pre_execute", "", None, false, true, false) {
        Ok(d) => d,
        Err(_) => {
            proof {
                assert(false);
            }
            MethodDecl {
                name: "__pre_execute".to_owned(),
                public: false,
                takes_receiver: true,
                return_ty: None,
                body: MethodBody::Placeholder("".to_owned()),
            }
        },
    }
}

/// The default on-execute: exposed, takes the receiver, emits no impulse.
pub fn default_on_execute() -> (r: MethodDecl)
    ensures
        default_decl_for(r, SlotKind::OnExecute),
{
    proof {
        lemma_slot_idents();
    }
    match generate_wrapper(
        "__on_execute",
        "Impulse::<i32>::NOOP",
        Some("Impulse<i32>"),
        true,
        true,
        false,
    ) {
        Ok(d) => d,
        Err(_) => {
            proof {
                assert(false);
            }
            MethodDecl {
                name: "__on_execute".to_owned(),
                public: true,
                takes_receiver: true,
                return_ty: Some("Impulse<i32>".to_owned()),
                body: MethodBody::Placeholder("Impulse::<i32>::NOOP".to_owned()),
            }
        },
    }
}

/// The default post-execute: exposed, takes the receiver, invokes the
/// aggregate reset.
pub fn default_post_execute() -> (r: MethodDecl)
    ensures
        default_decl_for(r, SlotKind::PostExecute),
{
    proof {
        lemma_slot_idents();
    }
    match generate_wrapper("__post_execute", "__reset", None, true, true, true) {
        Ok(d) => d,
        Err(_) => {
            proof {
                assert(false);
            }
            MethodDecl {
                name: "__post_execute".to_owned(),
                public: true,
                takes_receiver: true,
                return_ty: None,
                body: MethodBody::Invoke { target: "__reset".to_owned(), through_self: true },
            }
        },
    }
}


/// A slot's first tag claimant, when one exists, has an identifier-shaped
/// name.
pub open spec fn ident_first(ms: Seq<MethodNode>, s: SlotKind) -> bool {
    forall|k: int| #[trigger] is_first_claimant(ms, k, s) ==> is_ident(ms[k].name@)
}

proof fn lemma_claim_count_member(ms: Seq<MethodNode>, k: int, s: SlotKind)
    requires
        0 <= k < ms.len(),
    ensures
        claim_count(ms, s) >= method_claims(ms[k], s),
{
    lemma_claim_count_take_unfold(ms, k, s);
    lemma_claim_count_take_le(ms, k + 1, s);
}

proof fn lemma_has_reserved_take_step(ms: Seq<MethodNode>, i: int, s: SlotKind)
    requires
        0 <= i < ms.len(),
    ensures
        has_reserved(ms.take(i + 1), s) <==> (has_reserved(ms.take(i), s) || ms[i].name@
            == slot_text(s)),
{
    if has_reserved(ms.take(i), s) {
        let idx = choose|idx: int|
            0 <= idx < ms.take(i).len() && (#[trigger] ms.take(i)[idx]).name@ == slot_text(s);
        assert((ms.take(i + 1))[idx].name@ == slot_text(s));
    }
    if ms[i].name@ == slot_text(s) {
        assert((ms.take(i + 1))[i].name@ == slot_text(s));
    }
    if has_reserved(ms.take(i + 1), s) {
        let idx = choose|idx: int|
            0 <= idx < ms.take(i + 1).len() && (#[trigger] ms.take(i + 1)[idx]).name@ == slot_text(
                s,
            );
        if idx < i {
            assert((ms.take(i))[idx].name@ == slot_text(s));
        }
    }
}

/// Completes the user impl block. Every reserved-name method fills its slot
/// and wins it; a recognized tag on another method fills a free slot with a
/// delegating wrapper; each slot still empty receives its default body, in
/// slot order. The transformer accepts no arguments, and two tag claims on
/// one slot are a dedicated diagnostic.
pub fn delta_node_impl(args: &Vec<String>, input: ImplNode) -> (r: Result<
    CompletedImpl,
    MacroError,
>)
    ensures
        r is Ok <==> impl_resolves(args@, input.methods@),
        args@.len() > 0 ==> r == Err::<CompletedImpl, MacroError>(MacroError::UnexpectedArgs),
        r matches Ok(c) ==> {
            &&& c.methods == input.methods
            &&& forall|s: SlotKind|
                #[trigger] count_named(c.generated@, slot_text(s)) == (if has_reserved(
                    input.methods@,
                    s,
                ) {
                    0nat
                } else {
                    1nat
                })
            &&& forall|k: int|
                0 <= k < c.generated@.len() ==> exists|s: SlotKind|
                    !has_reserved(input.methods@, s) && slot_filled_spec(
                        #[trigger] c.generated@[k],
                        s,
                        input.methods@,
                    )
        },
        r matches Err(e) ==> match e {
            MacroError::UnexpectedArgs => args@.len() > 0,
            MacroError::DuplicateSlotClaim { slot } => exists|s: SlotKind|
                slot@ == #[trigger] slot_text(s) && !has_reserved(input.methods@, s)
                    && claim_count(input.methods@, s) >= 2,
            MacroError::BadNameFragment { fragment } => exists|s: SlotKind, k: int|
                !has_reserved(input.methods@, s) && #[trigger] is_first_claimant(
                    input.methods@,
                    k,
                    s,
                ) && fragment@ == input.methods@[k].name@ && !is_ident(fragment@),
            _ => false,
        },
{
    if args.len() > 0 {
        return Err(MacroError::UnexpectedArgs);
    }
    let n = input.methods.len();
    let mut r_init = false;
    let mut r_pre = false;
    let mut r_on = false;
    let mut r_post = false;
    let mut i: usize = 0;
    while i < n
        invariant
            0 <= i <= n,
            n == input.methods@.len(),
            r_init == has_reserved(input.methods@.take(i as int), SlotKind::CustomInitialize),
            r_pre == has_reserved(input.methods@.take(i as int), SlotKind::PreExecute),
            r_on == has_reserved(input.methods@.take(i as int), SlotKind::OnExecute),
            r_post == has_reserved(input.methods@.take(i as int), SlotKind::PostExecute),
        decreases n - i,
    {
        let m = &input.methods[i];
        if str_eq(m.name.as_str(), "__custom_initialize") {
            r_init = true;
        } else if str_eq(m.name.as_str(), "__pre_execute") {
            r_pre = true;
        } else if str_eq(m.name.as_str(), "__on_execute") {
            r_on = true;
        } else if str_eq(m.name.as_str(), "__post_execute") {
            r_post = true;
        }
        proof {
            lemma_slot_text_distinct();
            lemma_has_reserved_take_step(input.methods@, i as int, SlotKind::CustomInitialize);
            lemma_has_reserved_take_step(input.methods@, i as int, SlotKind::PreExecute);
            lemma_has_reserved_take_step(input.methods@, i as int, SlotKind::OnExecute);
            lemma_has_reserved_take_step(input.methods@, i as int, SlotKind::PostExecute);
        }
        i += 1;
    }
    proof {
        assert(input.methods@.take(n as int) =~= input.methods@);
    }
    let mut generated: Vec<MethodDecl> = Vec::new();
    let mut w_init = false;
    let mut w_pre = false;
    let mut w_on = false;
    let mut w_post = false;
    let mut i: usize = 0;
    while i < n
        invariant
            args@.len() == 0,
            0 <= i <= n,
            n == input.methods@.len(),
            r_init == has_reserved(input.methods@, SlotKind::CustomInitialize),
            r_pre == has_reserved(input.methods@, SlotKind::PreExecute),
            r_on == has_reserved(input.methods@, SlotKind::OnExecute),
            r_post == has_reserved(input.methods@, SlotKind::PostExecute),
            r_init ==> !w_init,
            r_pre ==> !w_pre,
            r_on ==> !w_on,
            r_post ==> !w_post,
            !r_init ==> claim_count(input.methods@.take(i as int), SlotKind::CustomInitialize) == (if w_init { 1nat } else { 0nat }),
            !r_pre ==> claim_count(input.methods@.take(i as int), SlotKind::PreExecute) == (if w_pre { 1nat } else { 0nat }),
            !r_on ==> claim_count(input.methods@.take(i as int), SlotKind::OnExecute) == (if w_on { 1nat } else { 0nat }),
            !r_post ==> claim_count(input.methods@.take(i as int), SlotKind::PostExecute) == (if w_post { 1nat } else { 0nat }),
            count_named(generated@, slot_text(SlotKind::CustomInitialize)) == (if w_init { 1nat } else { 0nat }),
            count_named(generated@, slot_text(SlotKind::PreExecute)) == (if w_pre { 1nat } else { 0nat }),
            count_named(generated@, slot_text(SlotKind::OnExecute)) == (if w_on { 1nat } else { 0nat }),
            count_named(generated@, slot_text(SlotKind::PostExecute)) == (if w_post { 1nat } else { 0nat }),
            w_init ==> ident_first(input.methods@, SlotKind::CustomInitialize),
            w_pre ==> ident_first(input.methods@, SlotKind::PreExecute),
            w_on ==> ident_first(input.methods@, SlotKind::OnExecute),
            w_post ==> ident_first(input.methods@, SlotKind::PostExecute),
            forall|k: int|
                0 <= k < generated@.len() ==> exists|s: SlotKind|
                    !has_reserved(input.methods@, s) && claim_count(input.methods@, s) > 0
                        && wrapper_decl_for(#[trigger] generated@[k], s, input.methods@),
        decreases n - i,
    {
        let m = &input.methods[i];
        let name_is_slot = str_eq(m.name.as_str(), "__custom_initialize") || str_eq(
            m.name.as_str(),
            "__pre_execute",
        ) || str_eq(m.name.as_str(), "__on_execute") || str_eq(m.name.as_str(), "__post_execute");
        if !name_is_slot {
            let tn = m.tags.len();
            let mut j: usize = 0;
            while j < tn
                invariant
                    args@.len() == 0,
                    0 <= j <= tn,
                    tn == m.tags@.len(),
                    0 <= i < n,
                    n == input.methods@.len(),
                    *m == input.methods@[i as int],
                    !is_slot_text(m.name@),
                    r_init == has_reserved(input.methods@, SlotKind::CustomInitialize),
                    r_pre == has_reserved(input.methods@, SlotKind::PreExecute),
                    r_on == has_reserved(input.methods@, SlotKind::OnExecute),
                    r_post == has_reserved(input.methods@, SlotKind::PostExecute),
                    r_init ==> !w_init,
                    r_pre ==> !w_pre,
                    r_on ==> !w_on,
                    r_post ==> !w_post,
                    !r_init ==> claim_count(input.methods@.take(i as int), SlotKind::CustomInitialize) + tag_count(m.tags@.take(j as int), SlotKind::CustomInitialize) == (if w_init { 1nat } else { 0nat }),
                    !r_pre ==> claim_count(input.methods@.take(i as int), SlotKind::PreExecute) + tag_count(m.tags@.take(j as int), SlotKind::PreExecute) == (if w_pre { 1nat } else { 0nat }),
                    !r_on ==> claim_count(input.methods@.take(i as int), SlotKind::OnExecute) + tag_count(m.tags@.take(j as int), SlotKind::OnExecute) == (if w_on { 1nat } else { 0nat }),
                    !r_post ==> claim_count(input.methods@.take(i as int), SlotKind::PostExecute) + tag_count(m.tags@.take(j as int), SlotKind::PostExecute) == (if w_post { 1nat } else { 0nat }),
                    count_named(generated@, slot_text(SlotKind::CustomInitialize)) == (if w_init { 1nat } else { 0nat }),
                    count_named(generated@, slot_text(SlotKind::PreExecute)) == (if w_pre { 1nat } else { 0nat }),
                    count_named(generated@, slot_text(SlotKind::OnExecute)) == (if w_on { 1nat } else { 0nat }),
                    count_named(generated@, slot_text(SlotKind::PostExecute)) == (if w_post { 1nat } else { 0nat }),
                    w_init ==> ident_first(input.methods@, SlotKind::CustomInitialize),
                    w_pre ==> ident_first(input.methods@, SlotKind::PreExecute),
                    w_on ==> ident_first(input.methods@, SlotKind::OnExecute),
                    w_post ==> ident_first(input.methods@, SlotKind::PostExecute),
                    forall|k: int|
                        0 <= k < generated@.len() ==> exists|s: SlotKind|
                            !has_reserved(input.methods@, s) && claim_count(input.methods@, s) > 0
                                && wrapper_decl_for(#[trigger] generated@[k], s, input.methods@),
                decreases tn - j,
            {
                let t = &m.tags[j];
                match tag_slot_of(t.as_str()) {
                    None => {
                        proof {
                            lemma_tag_count_take_unfold(m.tags@, j as int, SlotKind::CustomInitialize);
                            lemma_tag_count_take_unfold(m.tags@, j as int, SlotKind::PreExecute);
                            lemma_tag_count_take_unfold(m.tags@, j as int, SlotKind::OnExecute);
                            lemma_tag_count_take_unfold(m.tags@, j as int, SlotKind::PostExecute);
                        }
                    },
                    Some(SlotKind::CustomInitialize) => {
                        if r_init {
                            proof {
                                lemma_tag_count_take_unfold(m.tags@, j as int, SlotKind::CustomInitialize);
                                lemma_tag_count_take_unfold(m.tags@, j as int, SlotKind::PreExecute);
                                lemma_tag_count_take_unfold(m.tags@, j as int, SlotKind::OnExecute);
                                lemma_tag_count_take_unfold(m.tags@, j as int, SlotKind::PostExecute);
                            }
                        } else if w_init {
                            proof {
                                lemma_tag_count_take_unfold(m.tags@, j as int, SlotKind::CustomInitialize);
                                lemma_tag_count_take_le(m.tags@, j as int + 1, SlotKind::CustomInitialize);
                                lemma_claim_count_take_unfold(input.methods@, i as int, SlotKind::CustomInitialize);
                                lemma_claim_count_take_le(input.methods@, i as int + 1, SlotKind::CustomInitialize);
                                assert(claim_count(input.methods@, SlotKind::CustomInitialize) >= 2);
                            }
                            return Err(MacroError::DuplicateSlotClaim { slot: "__custom_initialize".to_owned() });
                        } else {
                            let d = match generate_wrapper("__custom_initialize", m.name.as_str(), None, true, true, true) {
                                Ok(d) => d,
                                Err(err) => {
                                    proof {
                                        lemma_slot_idents();
                                        lemma_tag_count_pos(m.tags@, j as int, SlotKind::CustomInitialize);
                                        assert forall|l: int| 0 <= l < i as int implies method_claims(
                                            input.methods@[l],
                                            SlotKind::CustomInitialize,
                                        ) == 0 by {
                                            lemma_claim_count_zero(input.methods@, i as int, l, SlotKind::CustomInitialize);
                                        }
                                        assert(is_first_claimant(input.methods@, i as int, SlotKind::CustomInitialize));
                                    }
                                    return Err(err);
                                },
                            };
                            let ghost g0 = generated@;
                            generated.push(d);
                            w_init = true;
                            proof {
                                lemma_slot_idents();
                                lemma_slot_text_distinct();
                                lemma_count_named_push(g0, d, slot_text(SlotKind::CustomInitialize));
                                lemma_count_named_push(g0, d, slot_text(SlotKind::PreExecute));
                                lemma_count_named_push(g0, d, slot_text(SlotKind::OnExecute));
                                lemma_count_named_push(g0, d, slot_text(SlotKind::PostExecute));
                                lemma_tag_count_take_unfold(m.tags@, j as int, SlotKind::CustomInitialize);
                                lemma_tag_count_take_unfold(m.tags@, j as int, SlotKind::PreExecute);
                                lemma_tag_count_take_unfold(m.tags@, j as int, SlotKind::OnExecute);
                                lemma_tag_count_take_unfold(m.tags@, j as int, SlotKind::PostExecute);
                                lemma_tag_count_pos(m.tags@, j as int, SlotKind::CustomInitialize);
                                assert forall|l: int| 0 <= l < i as int implies method_claims(
                                    input.methods@[l],
                                    SlotKind::CustomInitialize,
                                ) == 0 by {
                                    lemma_claim_count_zero(input.methods@, i as int, l, SlotKind::CustomInitialize);
                                }
                                assert(is_first_claimant(input.methods@, i as int, SlotKind::CustomInitialize));
                                lemma_claim_count_take_unfold(input.methods@, i as int, SlotKind::CustomInitialize);
                                lemma_claim_count_take_le(input.methods@, i as int + 1, SlotKind::CustomInitialize);
                                assert(claim_count(input.methods@, SlotKind::CustomInitialize) > 0);
                                assert(wrapper_decl_for(d, SlotKind::CustomInitialize, input.methods@));
                                assert forall|k2: int| #[trigger] is_first_claimant(
                                    input.methods@,
                                    k2,
                                    SlotKind::CustomInitialize,
                                ) implies is_ident(input.methods@[k2].name@) by {
                                    lemma_first_claimant_unique(input.methods@, k2, i as int, SlotKind::CustomInitialize);
                                }
                                assert(ident_first(input.methods@, SlotKind::CustomInitialize));
                            }
                        }
                    },
                    Some(SlotKind::PreExecute) => {
                        if r_pre {
                            proof {
                                lemma_tag_count_take_unfold(m.tags@, j as int, SlotKind::CustomInitialize);
                                lemma_tag_count_take_unfold(m.tags@, j as int, SlotKind::PreExecute);
                                lemma_tag_count_take_unfold(m.tags@, j as int, SlotKind::OnExecute);
                                lemma_tag_count_take_unfold(m.tags@, j as int, SlotKind::PostExecute);
                            }
                        } else if w_pre {
                            proof {
                                lemma_tag_count_take_unfold(m.tags@, j as int, SlotKind::PreExecute);
                                lemma_tag_count_take_le(m.tags@, j as int + 1, SlotKind::PreExecute);
                                lemma_claim_count_take_unfold(input.methods@, i as int, SlotKind::PreExecute);
                                lemma_claim_count_take_le(input.methods@, i as int + 1, SlotKind::PreExecute);
                                assert(claim_count(input.methods@, SlotKind::PreExecute) >= 2);
                            }
                            return Err(MacroError::DuplicateSlotClaim { slot: "__pre_execute".to_owned() });
                        } else {
                            let d = match generate_wrapper("__pre_execute", m.name.as_str(), None, true, true, true) {
                                Ok(d) => d,
                                Err(err) => {
                                    proof {
                                        lemma_slot_idents();
                                        lemma_tag_count_pos(m.tags@, j as int, SlotKind::PreExecute);
                                        assert forall|l: int| 0 <= l < i as int implies method_claims(
                                            input.methods@[l],
                                            SlotKind::PreExecute,
                                        ) == 0 by {
                                            lemma_claim_count_zero(input.methods@, i as int, l, SlotKind::PreExecute);
                                        }
                                        assert(is_first_claimant(input.methods@, i as int, SlotKind::PreExecute));
                                    }
                                    return Err(err);
                                },
                            };
                            let ghost g0 = generated@;
                            generated.push(d);
                            w_pre = true;
                            proof {
                                lemma_slot_idents();
                                lemma_slot_text_distinct();
                                lemma_count_named_push(g0, d, slot_text(SlotKind::CustomInitialize));
                                lemma_count_named_push(g0, d, slot_text(SlotKind::PreExecute));
                                lemma_count_named_push(g0, d, slot_text(SlotKind::OnExecute));
                                lemma_count_named_push(g0, d, slot_text(SlotKind::PostExecute));
                                lemma_tag_count_take_unfold(m.tags@, j as int, SlotKind::CustomInitialize);
                                lemma_tag_count_take_unfold(m.tags@, j as int, SlotKind::PreExecute);
                                lemma_tag_count_take_unfold(m.tags@, j as int, SlotKind::OnExecute);
                                lemma_tag_count_take_unfold(m.tags@, j as int, SlotKind::PostExecute);
                                lemma_tag_count_pos(m.tags@, j as int, SlotKind::PreExecute);
                                assert forall|l: int| 0 <= l < i as int implies method_claims(
                                    input.methods@[l],
                                    SlotKind::PreExecute,
                                ) == 0 by {
                                    lemma_claim_count_zero(input.methods@, i as int, l, SlotKind::PreExecute);
                                }
                                assert(is_first_claimant(input.methods@, i as int, SlotKind::PreExecute));
                                lemma_claim_count_take_unfold(input.methods@, i as int, SlotKind::PreExecute);
                                lemma_claim_count_take_le(input.methods@, i as int + 1, SlotKind::PreExecute);
                                assert(claim_count(input.methods@, SlotKind::PreExecute) > 0);
                                assert(wrapper_decl_for(d, SlotKind::PreExecute, input.methods@));
                                assert forall|k2: int| #[trigger] is_first_claimant(
                                    input.methods@,
                                    k2,
                                    SlotKind::PreExecute,
                                ) implies is_ident(input.methods@[k2].name@) by {
                                    lemma_first_claimant_unique(input.methods@, k2, i as int, SlotKind::PreExecute);
                                }
                                assert(ident_first(input.methods@, SlotKind::PreExecute));
                            }
                        }
                    },
                    Some(SlotKind::OnExecute) => {
                        if r_on {
                            proof {
                                lemma_tag_count_take_unfold(m.tags@, j as int, SlotKind::CustomInitialize);
                                lemma_tag_count_take_unfold(m.tags@, j as int, SlotKind::PreExecute);
                                lemma_tag_count_take_unfold(m.tags@, j as int, SlotKind::OnExecute);
                                lemma_tag_count_take_unfold(m.tags@, j as int, SlotKind::PostExecute);
                            }
                        } else if w_on {
                            proof {
                                lemma_tag_count_take_unfold(m.tags@, j as int, SlotKind::OnExecute);
                                lemma_tag_count_take_le(m.tags@, j as int + 1, SlotKind::OnExecute);
                                lemma_claim_count_take_unfold(input.methods@, i as int, SlotKind::OnExecute);
                                lemma_claim_count_take_le(input.methods@, i as int + 1, SlotKind::OnExecute);
                                assert(claim_count(input.methods@, SlotKind::OnExecute) >= 2);
                            }
                            return Err(MacroError::DuplicateSlotClaim { slot: "__on_execute".to_owned() });
                        } else {
                            let d = match generate_wrapper("__on_execute", m.name.as_str(), Some("Impulse<i32>"), true, true, true) {
                                Ok(d) => d,
                                Err(err) => {
                                    proof {
                                        lemma_slot_idents();
                                        lemma_tag_count_pos(m.tags@, j as int, SlotKind::OnExecute);
                                        assert forall|l: int| 0 <= l < i as int implies method_claims(
                                            input.methods@[l],
                                            SlotKind::OnExecute,
                                        ) == 0 by {
                                            lemma_claim_count_zero(input.methods@, i as int, l, SlotKind::OnExecute);
                                        }
                                        assert(is_first_claimant(input.methods@, i as int, SlotKind::OnExecute));
                                    }
                                    return Err(err);
                                },
                            };
                            let ghost g0 = generated@;
                            generated.push(d);
                            w_on = true;
                            proof {
                                lemma_slot_idents();
                                lemma_slot_text_distinct();
                                lemma_count_named_push(g0, d, slot_text(SlotKind::CustomInitialize));
                                lemma_count_named_push(g0, d, slot_text(SlotKind::PreExecute));
                                lemma_count_named_push(g0, d, slot_text(SlotKind::OnExecute));
                                lemma_count_named_push(g0, d, slot_text(SlotKind::PostExecute));
                                lemma_tag_count_take_unfold(m.tags@, j as int, SlotKind::CustomInitialize);
                                lemma_tag_count_take_unfold(m.tags@, j as int, SlotKind::PreExecute);
                                lemma_tag_count_take_unfold(m.tags@, j as int, SlotKind::OnExecute);
                                lemma_tag_count_take_unfold(m.tags@, j as int, SlotKind::PostExecute);
                                lemma_tag_count_pos(m.tags@, j as int, SlotKind::OnExecute);
                                assert forall|l: int| 0 <= l < i as int implies method_claims(
                                    input.methods@[l],
                                    SlotKind::OnExecute,
                                ) == 0 by {
                                    lemma_claim_count_zero(input.methods@, i as int, l, SlotKind::OnExecute);
                                }
                                assert(is_first_claimant(input.methods@, i as int, SlotKind::OnExecute));
                                lemma_claim_count_take_unfold(input.methods@, i as int, SlotKind::OnExecute);
                                lemma_claim_count_take_le(input.methods@, i as int + 1, SlotKind::OnExecute);
                                assert(claim_count(input.methods@, SlotKind::OnExecute) > 0);
                                assert(wrapper_decl_for(d, SlotKind::OnExecute, input.methods@));
                                assert forall|k2: int| #[trigger] is_first_claimant(
                                    input.methods@,
                                    k2,
                                    SlotKind::OnExecute,
                                ) implies is_ident(input.methods@[k2].name@) by {
                                    lemma_first_claimant_unique(input.methods@, k2, i as int, SlotKind::OnExecute);
                                }
                                assert(ident_first(input.methods@, SlotKind::OnExecute));
                            }
                        }
                    },
                    Some(SlotKind::PostExecute) => {
                        if r_post {
                            proof {
                                lemma_tag_count_take_unfold(m.tags@, j as int, SlotKind::CustomInitialize);
                                lemma_tag_count_take_unfold(m.tags@, j as int, SlotKind::PreExecute);
                                lemma_tag_count_take_unfold(m.tags@, j as int, SlotKind::OnExecute);
                                lemma_tag_count_take_unfold(m.tags@, j as int, SlotKind::PostExecute);
                            }
                        } else if w_post {
                            proof {
                                lemma_tag_count_take_unfold(m.tags@, j as int, SlotKind::PostExecute);
                                lemma_tag_count_take_le(m.tags@, j as int + 1, SlotKind::PostExecute);
                                lemma_claim_count_take_unfold(input.methods@, i as int, SlotKind::PostExecute);
                                lemma_claim_count_take_le(input.methods@, i as int + 1, SlotKind::PostExecute);
                                assert(claim_count(input.methods@, SlotKind::PostExecute) >= 2);
                            }
                            return Err(MacroError::DuplicateSlotClaim { slot: "__post_execute".to_owned() });
                        } else {
                            let d = match generate_wrapper("__post_execute", m.name.as_str(), None, true, true, true) {
                                Ok(d) => d,
                                Err(err) => {
                                    proof {
                                        lemma_slot_idents();
                                        lemma_tag_count_pos(m.tags@, j as int, SlotKind::PostExecute);
                                        assert forall|l: int| 0 <= l < i as int implies method_claims(
                                            input.methods@[l],
                                            SlotKind::PostExecute,
                                        ) == 0 by {
                                            lemma_claim_count_zero(input.methods@, i as int, l, SlotKind::PostExecute);
                                        }
                                        assert(is_first_claimant(input.methods@, i as int, SlotKind::PostExecute));
                                    }
                                    return Err(err);
                                },
                            };
                            let ghost g0 = generated@;
                            generated.push(d);
                            w_post = true;
                            proof {
                                lemma_slot_idents();
                                lemma_slot_text_distinct();
                                lemma_count_named_push(g0, d, slot_text(SlotKind::CustomInitialize));
                                lemma_count_named_push(g0, d, slot_text(SlotKind::PreExecute));
                                lemma_count_named_push(g0, d, slot_text(SlotKind::OnExecute));
                                lemma_count_named_push(g0, d, slot_text(SlotKind::PostExecute));
                                lemma_tag_count_take_unfold(m.tags@, j as int, SlotKind::CustomInitialize);
                                lemma_tag_count_take_unfold(m.tags@, j as int, SlotKind::PreExecute);
                                lemma_tag_count_take_unfold(m.tags@, j as int, SlotKind::OnExecute);
                                lemma_tag_count_take_unfold(m.tags@, j as int, SlotKind::PostExecute);
                                lemma_tag_count_pos(m.tags@, j as int, SlotKind::PostExecute);
                                assert forall|l: int| 0 <= l < i as int implies method_claims(
                                    input.methods@[l],
                                    SlotKind::PostExecute,
                                ) == 0 by {
                                    lemma_claim_count_zero(input.methods@, i as int, l, SlotKind::PostExecute);
                                }
                                assert(is_first_claimant(input.methods@, i as int, SlotKind::PostExecute));
                                lemma_claim_count_take_unfold(input.methods@, i as int, SlotKind::PostExecute);
                                lemma_claim_count_take_le(input.methods@, i as int + 1, SlotKind::PostExecute);
                                assert(claim_count(input.methods@, SlotKind::PostExecute) > 0);
                                assert(wrapper_decl_for(d, SlotKind::PostExecute, input.methods@));
                                assert forall|k2: int| #[trigger] is_first_claimant(
                                    input.methods@,
                                    k2,
                                    SlotKind::PostExecute,
                                ) implies is_ident(input.methods@[k2].name@) by {
                                    lemma_first_claimant_unique(input.methods@, k2, i as int, SlotKind::PostExecute);
                                }
                                assert(ident_first(input.methods@, SlotKind::PostExecute));
                            }
                        }
                    },
                }
                j += 1;
            }
            proof {
                assert(m.tags@.take(tn as int) =~= m.tags@);
                lemma_claim_count_take_unfold(input.methods@, i as int, SlotKind::CustomInitialize);
                lemma_claim_count_take_unfold(input.methods@, i as int, SlotKind::PreExecute);
                lemma_claim_count_take_unfold(input.methods@, i as int, SlotKind::OnExecute);
                lemma_claim_count_take_unfold(input.methods@, i as int, SlotKind::PostExecute);
            }
        } else {
            proof {
                lemma_claim_count_take_unfold(input.methods@, i as int, SlotKind::CustomInitialize);
                lemma_claim_count_take_unfold(input.methods@, i as int, SlotKind::PreExecute);
                lemma_claim_count_take_unfold(input.methods@, i as int, SlotKind::OnExecute);
                lemma_claim_count_take_unfold(input.methods@, i as int, SlotKind::PostExecute);
            }
        }
        i += 1;
    }
    proof {
        assert(input.methods@.take(n as int) =~= input.methods@);
    }
    let ghost ms = input.methods@;
    if !r_init && !w_init {
        let d = default_custom_initialize();
        let ghost g0 = generated@;
        generated.push(d);
        proof {
            lemma_slot_text_distinct();
            lemma_count_named_push(g0, d, slot_text(SlotKind::CustomInitialize));
            lemma_count_named_push(g0, d, slot_text(SlotKind::PreExecute));
            lemma_count_named_push(g0, d, slot_text(SlotKind::OnExecute));
            lemma_count_named_push(g0, d, slot_text(SlotKind::PostExecute));
            assert(slot_filled_spec(d, SlotKind::CustomInitialize, ms));
        }
    }
    if !r_pre && !w_pre {
        let d = default_pre_execute();
        let ghost g0 = generated@;
        generated.push(d);
        proof {
            lemma_slot_text_distinct();
            lemma_count_named_push(g0, d, slot_text(SlotKind::CustomInitialize));
            lemma_count_named_push(g0, d, slot_text(SlotKind::PreExecute));
            lemma_count_named_push(g0, d, slot_text(SlotKind::OnExecute));
            lemma_count_named_push(g0, d, slot_text(SlotKind::PostExecute));
            assert(slot_filled_spec(d, SlotKind::PreExecute, ms));
        }
    }
    if !r_on && !w_on {
        let d = default_on_execute();
        let ghost g0 = generated@;
        generated.push(d);
        proof {
            lemma_slot_text_distinct();
            lemma_count_named_push(g0, d, slot_text(SlotKind::CustomInitialize));
            lemma_count_named_push(g0, d, slot_text(SlotKind::PreExecute));
            lemma_count_named_push(g0, d, slot_text(SlotKind::OnExecute));
            lemma_count_named_push(g0, d, slot_text(SlotKind::PostExecute));
            assert(slot_filled_spec(d, SlotKind::OnExecute, ms));
        }
    }
    if !r_post && !w_post {
        let d = default_post_execute();
        let ghost g0 = generated@;
        generated.push(d);
        proof {
            lemma_slot_text_distinct();
            lemma_count_named_push(g0, d, slot_text(SlotKind::CustomInitialize));
            lemma_count_named_push(g0, d, slot_text(SlotKind::PreExecute));
            lemma_count_named_push(g0, d, slot_text(SlotKind::OnExecute));
            lemma_count_named_push(g0, d, slot_text(SlotKind::PostExecute));
            assert(slot_filled_spec(d, SlotKind::PostExecute, ms));
        }
    }
    proof {
        assert(count_named(generated@, slot_text(SlotKind::CustomInitialize)) == (if r_init { 0nat } else { 1nat }));
        assert(count_named(generated@, slot_text(SlotKind::PreExecute)) == (if r_pre { 0nat } else { 1nat }));
        assert(count_named(generated@, slot_text(SlotKind::OnExecute)) == (if r_on { 0nat } else { 1nat }));
        assert(count_named(generated@, slot_text(SlotKind::PostExecute)) == (if r_post { 0nat } else { 1nat }));
        assert forall|s: SlotKind|
            #[trigger] count_named(generated@, slot_text(s)) == (if has_reserved(ms, s) {
                0nat
            } else {
                1nat
            }) by {
            match s {
                SlotKind::CustomInitialize => {},
                SlotKind::PreExecute => {},
                SlotKind::OnExecute => {},
                SlotKind::PostExecute => {},
            }
        }
        assert forall|s: SlotKind| !has_reserved(ms, s) implies #[trigger] claim_count(ms, s)
            <= 1 by {
            match s {
                SlotKind::CustomInitialize => {},
                SlotKind::PreExecute => {},
                SlotKind::OnExecute => {},
                SlotKind::PostExecute => {},
            }
        }
        assert forall|s: SlotKind, k: int|
            !has_reserved(ms, s) && #[trigger] is_first_claimant(ms, k, s) implies is_ident(
            ms[k].name@,
        ) by {
            lemma_claim_count_member(ms, k, s);
            match s {
                SlotKind::CustomInitialize => {
                    assert(w_init);
                },
                SlotKind::PreExecute => {
                    assert(w_pre);
                },
                SlotKind::OnExecute => {
                    assert(w_on);
                },
                SlotKind::PostExecute => {
                    assert(w_post);
                },
            }
        }
        assert(impl_resolves(args@, ms));
    }
    Ok(CompletedImpl { methods: input.methods, generated })
}

} // verus!
