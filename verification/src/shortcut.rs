//! The binding lifecycle manager: rebinding a hotkey under a new combination.
//!
//! A binding record ties an id to its current and its default key
//! combination. Changing a binding unregisters the old combination from the
//! OS listener, then registers the new one; only full success updates and
//! returns the record. If unregistration succeeds but registration fails,
//! the id is left with no active combination — no rollback is attempted.
//! The OS listener itself is an external collaborator: whether it accepts a
//! parse or a registration enters the core as an [`OsResponse`].

use vstd::prelude::*;
use vstd::string::StringExecFns;
use crate::errors::CoreError;
use crate::strset::StrSet;

verus! {

/// Outcome of asking the OS hotkey subsystem to (un)register a combination:
/// the combination may fail to parse, or the subsystem may refuse it.
#[derive(Clone, Copy, Debug, PartialEq, Eq, Structural)]
pub enum OsResponse {
    Accepted,
    RejectedParse,
    RejectedOs,
}

/// The error a rejected OS call surfaces as.
pub open spec fn os_error(o: OsResponse) -> CoreError {
    match o {
        OsResponse::RejectedParse => CoreError::ParseError,
        _ => CoreError::RegistrationError,
    }
}

/// One hotkey binding: an id, the combination it currently listens on, and
/// the combination it falls back to on reset.
pub struct ShortcutBinding {
    pub id: String,
    pub current_binding: String,
    pub default_binding: String,
}

#[verifier::ext_equal]
pub ghost struct BindingModel {
    pub id: Seq<char>,
    pub current_binding: Seq<char>,
    pub default_binding: Seq<char>,
}

impl View for ShortcutBinding {
    type V = BindingModel;

    open spec fn view(&self) -> BindingModel {
        BindingModel {
            id: self.id@,
            current_binding: self.current_binding@,
            default_binding: self.default_binding@,
        }
    }
}

impl DeepView for ShortcutBinding {
    type V = BindingModel;

    open spec fn deep_view(&self) -> BindingModel {
        self.view()
    }
}

/// The structured reply of the binding commands: on success the updated
/// record, on failure a one-line reason.
pub struct BindingResponse {
    pub success: bool,
    pub binding: Option<ShortcutBinding>,
    pub error: Option<String>,
}

#[verifier::ext_equal]
pub ghost struct RespModel {
    pub success: bool,
    pub binding: Option<BindingModel>,
    pub error: Option<Seq<char>>,
}

impl View for BindingResponse {
    type V = RespModel;

    open spec fn view(&self) -> RespModel {
        RespModel {
            success: self.success,
            binding: match self.binding {
                Some(b) => Some(b@),
                None => None,
            },
            error: match self.error {
                Some(e) => Some(e@),
                None => None,
            },
        }
    }
}

/// The binding table together with the model of the OS listener's
/// registration state: the set of combinations that currently trigger.
pub struct ShortcutCenter {
    pub bindings: Vec<ShortcutBinding>,
    registered: StrSet,
}

#[verifier::ext_equal]
pub ghost struct ShortcutModel {
    pub bindings: Seq<BindingModel>,
    pub registered: Set<Seq<char>>,
}

impl View for ShortcutCenter {
    type V = ShortcutModel;

    closed spec fn view(&self) -> ShortcutModel {
        ShortcutModel {
            bindings: self.bindings.deep_view(),
            registered: self.registered@,
        }
    }
}

pub open spec fn unique_ids(bs: Seq<BindingModel>) -> bool {
    forall|i: int, j: int|
        0 <= i < bs.len() && 0 <= j < bs.len() && i != j ==> bs[i].id != bs[j].id
}

/// The binding of `id`, if the table has one.
pub open spec fn find_binding(bs: Seq<BindingModel>, id: Seq<char>) -> Option<BindingModel>
    decreases bs.len(),
{
    if bs.len() == 0 {
        None
    } else if bs[0].id == id {
        Some(bs[0])
    } else {
        find_binding(bs.drop_first(), id)
    }
}

/// The default combination stored for `id`, if the table has one.
pub open spec fn default_of(bs: Seq<BindingModel>, id: Seq<char>) -> Option<Seq<char>> {
    match find_binding(bs, id) {
        Some(b) => Some(b.default_binding),
        None => None,
    }
}

/// The table with `id`'s current combination replaced by `combo`.
pub open spec fn set_current(bs: Seq<BindingModel>, id: Seq<char>, combo: Seq<char>) -> Seq<
    BindingModel,
> {
    bs.map_values(
        |b: BindingModel|
            if b.id == id {
                BindingModel { current_binding: combo, ..b }
            } else {
                b
            },
    )
}

pub open spec fn resp_failure(e: CoreError) -> RespModel {
    RespModel { success: false, binding: None, error: Some(e.spec_message()) }
}

/// The reply to a lookup miss names the id it failed to find.
pub open spec fn not_found_message(id: Seq<char>) -> Seq<char> {
    "Binding with id '"@ + id + "' not found"@
}

pub open spec fn resp_not_found(id: Seq<char>) -> RespModel {
    RespModel { success: false, binding: None, error: Some(not_found_message(id)) }
}

/// One `change_binding` step. Lookup failure and a refused unregistration
/// leave everything as it was. Once the old combination is unregistered, a
/// refused registration — the new combination does not parse, the OS
/// rejects it, or it is already registered — leaves the id orphaned: the old
/// combination no longer triggers and no new one was installed. Only full
/// success updates the stored record.
pub open spec fn spec_change(
    m: ShortcutModel,
    id: Seq<char>,
    combo: Seq<char>,
    unreg: OsResponse,
    reg: OsResponse,
) -> (ShortcutModel, RespModel) {
    match find_binding(m.bindings, id) {
        None => (m, resp_not_found(id)),
        Some(b) => {
            if !(unreg is Accepted) {
                (m, resp_failure(os_error(unreg)))
            } else {
                let reg1 = m.registered.remove(b.current_binding);
                let m1 = ShortcutModel { bindings: m.bindings, registered: reg1 };
                if !(reg is Accepted) {
                    (m1, resp_failure(os_error(reg)))
                } else if reg1.contains(combo) {
                    (m1, resp_failure(CoreError::RegistrationError))
                } else {
                    let nb = BindingModel {
                        id: b.id,
                        current_binding: combo,
                        default_binding: b.default_binding,
                    };
                    (
                        ShortcutModel {
                            bindings: set_current(m.bindings, id, combo),
                            registered: reg1.insert(combo),
                        },
                        RespModel { success: true, binding: Some(nb), error: None },
                    )
                }
            }
        },
    }
}

/// One `reset_binding` step: a change back to the stored default.
pub open spec fn spec_reset(
    m: ShortcutModel,
    id: Seq<char>,
    unreg: OsResponse,
    reg: OsResponse,
) -> (ShortcutModel, RespModel) {
    match find_binding(m.bindings, id) {
        None => (m, resp_not_found(id)),
        Some(b) => spec_change(m, id, b.default_binding, unreg, reg),
    }
}

proof fn lemma_find_at(bs: Seq<BindingModel>, id: Seq<char>, i: int)
    requires
        0 <= i < bs.len(),
        bs[i].id == id,
        forall|j: int| 0 <= j < i ==> bs[j].id != id,
    ensures
        find_binding(bs, id) == Some(bs[i]),
    decreases i,
{
    if i > 0 {
        lemma_find_at(bs.drop_first(), id, i - 1);
    }
}

proof fn lemma_find_id(bs: Seq<BindingModel>, id: Seq<char>)
    ensures
        find_binding(bs, id) is Some ==> find_binding(bs, id).unwrap().id == id,
    decreases bs.len(),
{
    if bs.len() > 0 && bs[0].id != id {
        lemma_find_id(bs.drop_first(), id);
    }
}

proof fn lemma_find_none(bs: Seq<BindingModel>, id: Seq<char>)
    requires
        forall|j: int| 0 <= j < bs.len() ==> bs[j].id != id,
    ensures
        find_binding(bs, id) is None,
    decreases bs.len(),
{
    if bs.len() > 0 {
        lemma_find_none(bs.drop_first(), id);
    }
}

/// Looking a binding up after `set_current` finds the same record, with only
/// the current combination of `id` changed.
proof fn lemma_find_set_current(
    bs: Seq<BindingModel>,
    id: Seq<char>,
    combo: Seq<char>,
    id2: Seq<char>,
)
    ensures
        find_binding(set_current(bs, id, combo), id2) == (match find_binding(bs, id2) {
            None => None::<BindingModel>,
            Some(b) => Some(
                if b.id == id {
                    BindingModel { current_binding: combo, ..b }
                } else {
                    b
                },
            ),
        }),
    decreases bs.len(),
{
    let sc = set_current(bs, id, combo);
    if bs.len() > 0 {
        assert(sc[0] == (if bs[0].id == id {
            BindingModel { current_binding: combo, ..bs[0] }
        } else {
            bs[0]
        }));
        if bs[0].id == id2 {
        } else {
            assert(sc.drop_first() =~= set_current(bs.drop_first(), id, combo));
            lemma_find_set_current(bs.drop_first(), id, combo, id2);
        }
    }
}

impl ShortcutCenter {
    /// Every id appears once, and the listener model holds no duplicates.
    pub open spec fn wf(&self) -> bool {
        unique_ids(self@.bindings) && self.registered_wf()
    }

    pub closed spec fn registered_wf(&self) -> bool {
        self.registered.wf()
    }

    /// Whether a press of `combo` reaches the handlers: exactly the
    /// registered combinations trigger.
    pub fn triggers(&self, combo: &String) -> (r: bool)
        ensures
            r == self@.registered.contains(combo@),
    {
        self.registered.contains(combo)
    }
}

fn find_index(bindings: &Vec<ShortcutBinding>, id: &String) -> (r: Option<usize>)
    ensures
        match r {
            Some(i) => 0 <= i < bindings@.len() && bindings.deep_view()[i as int].id == id@
                && find_binding(bindings.deep_view(), id@) == Some(
                bindings.deep_view()[i as int],
            ) && (forall|j: int| 0 <= j < i ==> bindings.deep_view()[j].id != id@),
            None => find_binding(bindings.deep_view(), id@) is None,
        },
{
    let n: usize = bindings.len();
    let mut i: usize = 0;
    while i < n
        invariant
            0 <= i <= n,
            n == bindings@.len(),
            forall|j: int| 0 <= j < i ==> bindings.deep_view()[j].id != id@,
        decreases n - i,
    {
        if bindings[i].id == *id {
            proof {
                lemma_find_at(bindings.deep_view(), id@, i as int);
            }
            return Some(i);
        }
        i += 1;
    }
    proof {
        lemma_find_none(bindings.deep_view(), id@);
    }
    None
}

fn failure_response(e: CoreError) -> (r: BindingResponse)
    ensures
        r@ == resp_failure(e),
{
    BindingResponse { success: false, binding: None, error: Some(e.message()) }
}

fn not_found_response(id: &String) -> (r: BindingResponse)
    ensures
        r@ == resp_not_found(id@),
{
    let mut msg = String::from_str("Binding with id '");
    msg.append(id.as_str());
    msg.append("' not found");
    let resp = BindingResponse { success: false, binding: None, error: Some(msg) };
    proof {
        assert(resp@ =~= resp_not_found(id@));
    }
    resp
}

/// Rebinds `id` to `new_combo`: unregister the old combination, register the
/// new one, and only on full success store and return the updated record.
/// `unreg` and `reg` carry what the OS listener answered to the two calls.
pub fn change_binding(
    center: &mut ShortcutCenter,
    id: &String,
    new_combo: String,
    unreg: OsResponse,
    reg: OsResponse,
) -> (r: BindingResponse)
    requires
        old(center).wf(),
    ensures
        final(center).wf(),
        ({
            let (m2, resp) = spec_change(old(center)@, id@, new_combo@, unreg, reg);
            final(center)@ == m2 && r@ == resp
        }),
{
    let idx: usize;
    match find_index(&center.bindings, id) {
        None => {
            return not_found_response(id);
        },
        Some(i) => {
            idx = i;
        },
    }
    match unreg {
        OsResponse::Accepted => {},
        OsResponse::RejectedParse => {
            return failure_response(CoreError::ParseError);
        },
        OsResponse::RejectedOs => {
            return failure_response(CoreError::RegistrationError);
        },
    }
    let _was_registered = center.registered.remove(&center.bindings[idx].current_binding);
    match reg {
        OsResponse::Accepted => {},
        OsResponse::RejectedParse => {
            return failure_response(CoreError::ParseError);
        },
        OsResponse::RejectedOs => {
            return failure_response(CoreError::RegistrationError);
        },
    }
    if center.registered.contains(&new_combo) {
        return failure_response(CoreError::RegistrationError);
    }
    let _added = center.registered.insert(new_combo.clone());
    let ghost pre_bindings = old(center).bindings.deep_view();
    let old_b = center.bindings.remove(idx);
    let stored = ShortcutBinding {
        id: old_b.id.clone(),
        current_binding: new_combo.clone(),
        default_binding: old_b.default_binding.clone(),
    };
    center.bindings.insert(idx, stored);
    proof {
        let pi = idx as int;
        assert forall|k: int| 0 <= k < center.bindings.deep_view().len() implies
            center.bindings.deep_view()[k] == set_current(pre_bindings, id@, new_combo@)[k] by {
            if k != pi {
                assert(pre_bindings[k].id != pre_bindings[pi].id);
            }
        }
        assert(center.bindings.deep_view() =~= set_current(pre_bindings, id@, new_combo@));
        assert(unique_ids(center.bindings.deep_view()));
    }
    BindingResponse {
        success: true,
        binding: Some(
            ShortcutBinding {
                id: old_b.id,
                current_binding: new_combo,
                default_binding: old_b.default_binding,
            },
        ),
        error: None,
    }
}

/// Restores `id` to its stored default combination; defined as a
/// `change_binding` to that default.
pub fn reset_binding(
    center: &mut ShortcutCenter,
    id: &String,
    unreg: OsResponse,
    reg: OsResponse,
) -> (r: BindingResponse)
    requires
        old(center).wf(),
    ensures
        final(center).wf(),
        ({
            let (m2, resp) = spec_reset(old(center)@, id@, unreg, reg);
            final(center)@ == m2 && r@ == resp
        }),
{
    let idx: usize;
    match find_index(&center.bindings, id) {
        None => {
            return not_found_response(id);
        },
        Some(i) => {
            idx = i;
        },
    }
    let default_combo = center.bindings[idx].default_binding.clone();
    change_binding(center, id, default_combo, unreg, reg)
}

/// The registration state after startup: each stored binding's current
/// combination that the OS accepted, walking the table front to back.
pub open spec fn spec_init_registered(
    bs: Seq<BindingModel>,
    os: Seq<OsResponse>,
    k: int,
) -> Set<Seq<char>>
    decreases k,
{
    if k <= 0 {
        Set::empty()
    } else {
        let prev = spec_init_registered(bs, os, k - 1);
        if os[k - 1] is Accepted {
            prev.insert(bs[k - 1].current_binding)
        } else {
            prev
        }
    }
}

/// Builds the startup state from the stored bindings, registering each one's
/// current combination; a refused registration is ignored, as startup does
/// not fail on a single bad binding.
pub fn init_shortcuts(bindings: Vec<ShortcutBinding>, outcomes: Vec<OsResponse>) -> (c:
    ShortcutCenter)
    requires
        outcomes@.len() == bindings@.len(),
        unique_ids(bindings.deep_view()),
    ensures
        c.wf(),
        c@.bindings == bindings.deep_view(),
        c@.registered == spec_init_registered(
            bindings.deep_view(),
            outcomes@,
            bindings@.len() as int,
        ),
{
    let n: usize = bindings.len();
    let mut registered = StrSet::new();
    let mut i: usize = 0;
    while i < n
        invariant
            0 <= i <= n,
            n == bindings@.len(),
            outcomes@.len() == n,
            registered.wf(),
            registered@ == spec_init_registered(bindings.deep_view(), outcomes@, i as int),
        decreases n - i,
    {
        match outcomes[i] {
            OsResponse::Accepted => {
                let ghost prev = registered@;
                let added = registered.insert(bindings[i].current_binding.clone());
                proof {
                    if !added {
                        assert(prev.insert(bindings.deep_view()[i as int].current_binding)
                            =~= prev);
                    }
                }
            },
            _ => {},
        }
        i += 1;
    }
    ShortcutCenter { bindings, registered }
}

/// After a successful rebinding to `x` and then a successful rebinding to
/// `y` for the same id, only `y` is registered: `y` triggers and `x` no
/// longer does.
pub proof fn lemma_rebinding_supersedes(
    m: ShortcutModel,
    id: Seq<char>,
    x: Seq<char>,
    y: Seq<char>,
    u1: OsResponse,
    r1: OsResponse,
    u2: OsResponse,
    r2: OsResponse,
)
    requires
        spec_change(m, id, x, u1, r1).1.success,
        spec_change(spec_change(m, id, x, u1, r1).0, id, y, u2, r2).1.success,
    ensures
        ({
            let m1 = spec_change(m, id, x, u1, r1).0;
            let m2 = spec_change(m1, id, y, u2, r2).0;
            m2.registered.contains(y) && (x != y ==> !m2.registered.contains(x))
        }),
{
    let b = find_binding(m.bindings, id).unwrap();
    lemma_find_id(m.bindings, id);
    let m1 = spec_change(m, id, x, u1, r1).0;
    let reg1 = m.registered.remove(b.current_binding);
    assert(m1.registered == reg1.insert(x));
    assert(m1.bindings == set_current(m.bindings, id, x));
    lemma_find_set_current(m.bindings, id, x, id);
    lemma_find_id(m1.bindings, id);
    let b1 = find_binding(m1.bindings, id).unwrap();
    assert(b1.current_binding == x);
    let m2 = spec_change(m1, id, y, u2, r2).0;
    let reg2 = m1.registered.remove(x);
    assert(!reg2.contains(y));
    assert(m2.registered == reg2.insert(y));
    assert(!reg1.contains(x));
}

/// One rebinding command, as issued over time: the id addressed, the
/// combination asked for, and what the OS answered to the two calls.
pub ghost struct ChangeCmd {
    pub id: Seq<char>,
    pub combo: Seq<char>,
    pub unreg: OsResponse,
    pub reg: OsResponse,
}

/// The state after a whole history of rebinding commands.
pub open spec fn run_changes(m: ShortcutModel, cmds: Seq<ChangeCmd>) -> ShortcutModel
    decreases cmds.len(),
{
    if cmds.len() == 0 {
        m
    } else {
        run_changes(
            spec_change(m, cmds[0].id, cmds[0].combo, cmds[0].unreg, cmds[0].reg).0,
            cmds.drop_first(),
        )
    }
}

proof fn lemma_change_preserves_defaults(
    m: ShortcutModel,
    id: Seq<char>,
    combo: Seq<char>,
    unreg: OsResponse,
    reg: OsResponse,
    id2: Seq<char>,
)
    ensures
        default_of(spec_change(m, id, combo, unreg, reg).0.bindings, id2) == default_of(
            m.bindings,
            id2,
        ),
{
    lemma_find_set_current(m.bindings, id, combo, id2);
}

proof fn lemma_run_preserves_defaults(m: ShortcutModel, cmds: Seq<ChangeCmd>, id2: Seq<char>)
    ensures
        default_of(run_changes(m, cmds).bindings, id2) == default_of(m.bindings, id2),
    decreases cmds.len(),
{
    if cmds.len() > 0 {
        let m1 = spec_change(m, cmds[0].id, cmds[0].combo, cmds[0].unreg, cmds[0].reg).0;
        lemma_change_preserves_defaults(m, cmds[0].id, cmds[0].combo, cmds[0].unreg, cmds[0].reg, id2);
        lemma_run_preserves_defaults(m1, cmds.drop_first(), id2);
    }
}

/// A successful reset, after any history of rebinding commands, restores the
/// binding to the default combination it started with: the stored record and
/// the returned record both read the original default.
pub proof fn lemma_reset_restores_default(
    m0: ShortcutModel,
    cmds: Seq<ChangeCmd>,
    id: Seq<char>,
    unreg: OsResponse,
    reg: OsResponse,
)
    requires
        spec_reset(run_changes(m0, cmds), id, unreg, reg).1.success,
    ensures
        ({
            let m1 = run_changes(m0, cmds);
            let (m2, resp) = spec_reset(m1, id, unreg, reg);
            &&& default_of(m0.bindings, id) is Some
            &&& find_binding(m2.bindings, id) is Some
            &&& find_binding(m2.bindings, id).unwrap().current_binding == default_of(
                m0.bindings,
                id,
            ).unwrap()
            &&& resp.binding is Some
            &&& resp.binding.unwrap().current_binding == default_of(m0.bindings, id).unwrap()
        }),
{
    let m1 = run_changes(m0, cmds);
    lemma_run_preserves_defaults(m0, cmds, id);
    lemma_find_id(m1.bindings, id);
    let b1 = find_binding(m1.bindings, id).unwrap();
    let (m2, resp) = spec_change(m1, id, b1.default_binding, unreg, reg);
    lemma_find_set_current(m1.bindings, id, b1.default_binding, id);
}

} // verus!
