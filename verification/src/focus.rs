//! Keyboard focus and semantic metadata shared by widgets and narration.
//!
//! Focus lives in a stack of scopes: the root scope holds the main screen's
//! controls, dialogs and popups push their own scope (trapping focus inside
//! it) and restore the previous focus when they are popped.

use vstd::prelude::*;
use vstd::string::*;
use vstd::arithmetic::div_mod::{
    lemma_add_mod_noop_right, lemma_small_mod, lemma_sub_mod_noop_right,
};

verus! {

/// Identifier of a focusable node.
#[derive(Debug, Clone, Eq, Hash)]
pub struct FocusId(pub String);

impl PartialEq for FocusId {
    fn eq(&self, other: &Self) -> (r: bool) {
        self.0 == other.0
    }
}

impl vstd::std_specs::cmp::PartialEqSpecImpl for FocusId {
    open spec fn obeys_eq_spec() -> bool {
        true
    }

    open spec fn eq_spec(&self, other: &Self) -> bool {
        self.0@ == other.0@
    }
}

impl FocusId {
    pub fn new(value: &str) -> (r: Self)
        ensures
            r.0@ == value@,
    {
        FocusId(String::from_str(value))
    }

    /// A copy of this identifier with the same text.
    pub fn duplicate(&self) -> (r: Self)
        ensures
            r.0@ == self.0@,
    {
        FocusId(self.0.clone())
    }
}

#[derive(Debug, Clone, Copy, PartialEq, Eq, Structural)]
pub enum AccessibleRole {
    Button,
    MenuButton,
    MenuItem,
    TextField,
    List,
    ListItem,
    Checkbox,
    Slider,
    Dialog,
    Region,
}

#[derive(Debug, Clone, PartialEq, Eq)]
pub struct AccessibleNode {
    pub id: FocusId,
    pub role: AccessibleRole,
    pub label: String,
    pub value: Option<String>,
    pub enabled: bool,
}

impl AccessibleNode {
    pub fn focusable(id: &str, role: AccessibleRole, label: &str) -> (r: Self)
        ensures
            r.id.0@ == id@,
            r.role == role,
            r.label@ == label@,
            r.value is None,
            r.enabled,
    {
        AccessibleNode {
            id: FocusId::new(id),
            role,
            label: String::from_str(label),
            value: None,
            enabled: true,
        }
    }
}

/// Whether a node can take the focus.
pub open spec fn is_enabled(node: AccessibleNode) -> bool {
    node.enabled
}

/// The predicate "enabled node with identifier `id`".
pub open spec fn enabled_with_id(id: Seq<char>) -> spec_fn(AccessibleNode) -> bool {
    |node: AccessibleNode| node.id.0@ == id && node.enabled
}

/// The predicate "enabled node".
pub open spec fn enabled_node() -> spec_fn(AccessibleNode) -> bool {
    |node: AccessibleNode| node.enabled
}

/// Index of the first node at or after `k` satisfying `p`.
pub open spec fn first_from(
    nodes: Seq<AccessibleNode>,
    p: spec_fn(AccessibleNode) -> bool,
    k: int,
) -> Option<int>
    decreases nodes.len() - k,
{
    if k < 0 || k >= nodes.len() {
        None
    } else if p(nodes[k]) {
        Some(k)
    } else {
        first_from(nodes, p, k + 1)
    }
}

/// Index of the last node strictly before `k` satisfying `p`.
pub open spec fn last_before(
    nodes: Seq<AccessibleNode>,
    p: spec_fn(AccessibleNode) -> bool,
    k: int,
) -> Option<int>
    decreases k,
{
    if k <= 0 || k > nodes.len() {
        None
    } else if p(nodes[k - 1]) {
        Some(k - 1)
    } else {
        last_before(nodes, p, k - 1)
    }
}

/// One wrapping step through `len` positions.
pub open spec fn wrap_step(i: int, len: int, forward: bool) -> int {
    if forward {
        if i + 1 >= len {
            0
        } else {
            i + 1
        }
    } else {
        if i <= 0 {
            len - 1
        } else {
            i - 1
        }
    }
}

/// The first enabled node met by stepping (with wrap-around) from `i`, at
/// most `left` steps.
pub open spec fn scan_enabled(nodes: Seq<AccessibleNode>, i: int, forward: bool, left: nat) -> Option<
    int,
>
    decreases left,
{
    if left == 0 {
        None
    } else {
        let j = wrap_step(i, nodes.len() as int, forward);
        if nodes[j].enabled {
            Some(j)
        } else {
            scan_enabled(nodes, j, forward, (left - 1) as nat)
        }
    }
}

/// Abstract state of one focus scope.
pub struct ScopeView {
    pub id: Seq<char>,
    pub nodes: Seq<AccessibleNode>,
    pub focused: Option<int>,
    pub restore: Option<Seq<char>>,
}

/// The node a scope currently focuses, if any.
pub open spec fn scope_current(scope: ScopeView) -> Option<AccessibleNode> {
    match scope.focused {
        Some(i) => if 0 <= i < scope.nodes.len() {
            Some(scope.nodes[i])
        } else {
            None
        },
        None => None,
    }
}

/// The focused node of the active (innermost) scope.
pub open spec fn current_of(scopes: Seq<ScopeView>) -> Option<AccessibleNode> {
    if scopes.len() == 0 {
        None
    } else {
        scope_current(scopes.last())
    }
}

/// Identifier text of the focused node of the active scope.
pub open spec fn current_id_of(scopes: Seq<ScopeView>) -> Option<Seq<char>> {
    match current_of(scopes) {
        Some(node) => Some(node.id.0@),
        None => None,
    }
}

/// Index focused after moving one step in `forward` direction inside `scope`.
pub open spec fn advanced_focus(scope: ScopeView, forward: bool) -> Option<int> {
    let nodes = scope.nodes;
    if first_from(nodes, enabled_node(), 0) is None {
        None
    } else {
        match scope.focused {
            None => if forward {
                first_from(nodes, enabled_node(), 0)
            } else {
                last_before(nodes, enabled_node(), nodes.len() as int)
            },
            Some(f) => scan_enabled(nodes, f as int % nodes.len() as int, forward, nodes.len()),
        }
    }
}

/// Scope `scope` with its focus replaced.
pub open spec fn with_focus(scope: ScopeView, focused: Option<int>) -> ScopeView {
    ScopeView { focused, ..scope }
}

/// The index of the enabled node with identifier `id` (first one), as a focus.
pub open spec fn focus_index(nodes: Seq<AccessibleNode>, id: Seq<char>) -> Option<int> {
    first_from(nodes, enabled_with_id(id), 0)
}

/// Root scope after `replace_root`: same focus identifier when still present.
pub open spec fn replace_root_model(v: Seq<ScopeView>, nodes: Seq<AccessibleNode>) -> Seq<ScopeView> {
    let root = ScopeView {
        id: "root"@,
        nodes,
        focused: match current_id_of(v) {
            Some(id) => focus_index(nodes, id),
            None => None,
        },
        restore: None,
    };
    if v.len() == 0 {
        seq![root]
    } else {
        v.update(0, root)
    }
}

/// Scope stack after opening a scope `id` over `nodes`.
pub open spec fn push_model(v: Seq<ScopeView>, id: Seq<char>, nodes: Seq<AccessibleNode>) -> Seq<
    ScopeView,
> {
    v.push(
        ScopeView {
            id,
            nodes,
            focused: first_from(nodes, enabled_node(), 0),
            restore: current_id_of(v),
        },
    )
}

/// Identifier handed back when closing the innermost scope.
pub open spec fn pop_result(v: Seq<ScopeView>) -> Option<Seq<char>> {
    if v.len() <= 1 {
        None
    } else {
        v.last().restore
    }
}

/// Scope stack after closing the innermost scope.
pub open spec fn pop_model(v: Seq<ScopeView>) -> Seq<ScopeView> {
    if v.len() <= 1 {
        v
    } else {
        match v.last().restore {
            Some(id) => focus_model(v.drop_last(), id),
            None => v.drop_last(),
        }
    }
}

/// Scope stack after focusing the node identified by `id`.
pub open spec fn focus_model(v: Seq<ScopeView>, id: Seq<char>) -> Seq<ScopeView> {
    if v.len() == 0 {
        v
    } else {
        match focus_index(v.last().nodes, id) {
            Some(i) => v.update(v.len() - 1, with_focus(v.last(), Some(i))),
            None => v,
        }
    }
}

/// Scope stack after removing the focus.
pub open spec fn clear_model(v: Seq<ScopeView>) -> Seq<ScopeView> {
    if v.len() == 0 {
        v
    } else {
        v.update(v.len() - 1, with_focus(v.last(), None))
    }
}

/// Scope stack after one focus move.
pub open spec fn advance_model(v: Seq<ScopeView>, forward: bool) -> Seq<ScopeView> {
    if v.len() == 0 {
        v
    } else {
        v.update(
            v.len() - 1,
            with_focus(v.last(), advanced_focus(v.last(), forward)),
        )
    }
}

/// A scope's focus, when set, rests on one of its enabled nodes.
pub open spec fn scope_valid(scope: ScopeView) -> bool {
    match scope.focused {
        Some(i) => 0 <= i < scope.nodes.len() && scope.nodes[i].enabled,
        None => true,
    }
}

/// Every scope's focus rests on an enabled node of that scope.
pub open spec fn focus_valid(v: Seq<ScopeView>) -> bool {
    forall|i: int| 0 <= i < v.len() ==> #[trigger] scope_valid(v[i])
}

/// The focus of every scope only ever rests on an enabled node. An empty
/// manager satisfies it and every operation keeps it.
pub proof fn lemma_operations_keep_focus_valid(
    v: Seq<ScopeView>,
    nodes: Seq<AccessibleNode>,
    id: Seq<char>,
    forward: bool,
)
    requires
        focus_valid(v),
    ensures
        focus_valid(Seq::<ScopeView>::empty()),
        focus_valid(replace_root_model(v, nodes)),
        focus_valid(push_model(v, id, nodes)),
        focus_valid(pop_model(v)),
        focus_valid(focus_model(v, id)),
        focus_valid(clear_model(v)),
        focus_valid(advance_model(v, forward)),
{
    lemma_focus_model_valid(v, id);
    if v.len() > 1 {
        if let Some(r) = v.last().restore {
            lemma_focus_model_valid(v.drop_last(), r);
        }
    }
    match current_id_of(v) {
        Some(cid) => lemma_first_from_sound(nodes, enabled_with_id(cid), 0),
        None => {},
    }
    lemma_first_from_sound(nodes, enabled_node(), 0);
    if v.len() > 0 {
        lemma_advanced_focus_is_enabled(v.last(), forward);
    }
    let r = replace_root_model(v, nodes);
    assert forall|i: int| 0 <= i < r.len() implies #[trigger] scope_valid(r[i]) by {
        if i > 0 {
            assert(r[i] == v[i]);
        }
    }
    let p = push_model(v, id, nodes);
    assert forall|i: int| 0 <= i < p.len() implies #[trigger] scope_valid(p[i]) by {
        if i < v.len() {
            assert(p[i] == v[i]);
        }
    }
    let a = advance_model(v, forward);
    assert forall|i: int| 0 <= i < a.len() implies #[trigger] scope_valid(a[i]) by {
        if i < v.len() - 1 {
            assert(a[i] == v[i]);
        }
    }
    let c = clear_model(v);
    assert forall|i: int| 0 <= i < c.len() implies #[trigger] scope_valid(c[i]) by {
        if i < v.len() - 1 {
            assert(c[i] == v[i]);
        }
    }
    let q = pop_model(v);
    if v.len() > 1 {
        let rest = v.drop_last();
        assert forall|i: int| 0 <= i < rest.len() implies #[trigger] scope_valid(rest[i]) by {
            assert(rest[i] == v[i]);
        }
        if let Some(r) = v.last().restore {
            lemma_focus_model_valid(rest, r);
        }
    }
}

proof fn lemma_focus_model_valid(v: Seq<ScopeView>, id: Seq<char>)
    requires
        focus_valid(v),
    ensures
        focus_valid(focus_model(v, id)),
{
    if v.len() > 0 {
        let nodes = v.last().nodes;
        lemma_first_from_sound(nodes, enabled_with_id(id), 0);
        if let Some(k) = first_from(nodes, enabled_with_id(id), 0) {
            assert(enabled_with_id(id)(nodes[k]));
            assert(nodes[k].enabled);
            assert(scope_valid(with_focus(v.last(), Some(k))));
        }
        let f = focus_model(v, id);
        assert forall|i: int| 0 <= i < f.len() implies #[trigger] scope_valid(f[i]) by {
            if i < v.len() - 1 {
                assert(f[i] == v[i]);
            }
        }
    }
}

proof fn lemma_first_from_complete(
    nodes: Seq<AccessibleNode>,
    p: spec_fn(AccessibleNode) -> bool,
    k: int,
    t: int,
)
    requires
        0 <= k <= t < nodes.len(),
        p(nodes[t]),
    ensures
        first_from(nodes, p, k) is Some,
    decreases t - k,
{
    if !p(nodes[k]) {
        lemma_first_from_complete(nodes, p, k + 1, t);
    }
}

/// A dialog traps the focus and gives it back. Opening a scope and then
/// closing it hands back, and focuses again, the node that had the focus.
pub proof fn lemma_push_then_pop_restores_focus(
    v: Seq<ScopeView>,
    id: Seq<char>,
    nodes: Seq<AccessibleNode>,
)
    requires
        v.len() >= 1,
        focus_valid(v),
    ensures
        pop_result(push_model(v, id, nodes)) == current_id_of(v),
        current_id_of(pop_model(push_model(v, id, nodes))) == current_id_of(v),
        pop_model(push_model(v, id, nodes)).len() == v.len(),
{
    let pushed = push_model(v, id, nodes);
    assert(pushed.drop_last() =~= v);
    let s = v.last();
    assert(scope_valid(v[v.len() - 1]));
    match current_id_of(v) {
        Some(cid) => {
            let f = s.focused->0 as int;
            lemma_first_from_complete(s.nodes, enabled_with_id(cid), 0, f);
            lemma_first_from_sound(s.nodes, enabled_with_id(cid), 0);
        },
        None => {},
    }
}

#[derive(Debug, Clone)]
struct FocusScope {
    id: String,
    nodes: Vec<AccessibleNode>,
    focused: Option<usize>,
    restore: Option<FocusId>,
}

impl FocusScope {
    spec fn model(&self) -> ScopeView {
        ScopeView {
            id: self.id@,
            nodes: self.nodes@,
            focused: match self.focused {
                Some(i) => Some(i as int),
                None => None,
            },
            restore: match self.restore {
                Some(id) => Some(id.0@),
                None => None,
            },
        }
    }
}

/// A stack is used so dialogs and popups trap focus and restore it reliably.
#[derive(Debug)]
pub struct FocusManager {
    scopes: Vec<FocusScope>,
}

impl View for FocusManager {
    type V = Seq<ScopeView>;

    closed spec fn view(&self) -> Seq<ScopeView> {
        Seq::new(self.scopes@.len(), |i: int| self.scopes@[i].model())
    }
}

fn copy_node(n: &AccessibleNode) -> (r: AccessibleNode)
    ensures
        r == *n,
{
    AccessibleNode {
        id: FocusId(n.id.0.clone()),
        role: n.role,
        label: n.label.clone(),
        value: match &n.value {
            Some(v) => Some(v.clone()),
            None => None,
        },
        enabled: n.enabled,
    }
}

fn copy_scope(s: &FocusScope) -> (r: FocusScope)
    ensures
        r.model() == s.model(),
{
    let mut nodes: Vec<AccessibleNode> = Vec::new();
    let mut i: usize = 0;
    while i < s.nodes.len()
        invariant
            i <= s.nodes@.len(),
            nodes@ == s.nodes@.take(i as int),
        decreases s.nodes@.len() - i,
    {
        nodes.push(copy_node(&s.nodes[i]));
        i = i + 1;
        assert(nodes@ =~= s.nodes@.take(i as int));
    }
    assert(s.nodes@.take(s.nodes@.len() as int) =~= s.nodes@);
    FocusScope {
        id: s.id.clone(),
        nodes,
        focused: s.focused,
        restore: match &s.restore {
            Some(id) => Some(id.duplicate()),
            None => None,
        },
    }
}

impl Clone for FocusManager {
    /// A manager with the same scopes, nodes and focus.
    fn clone(&self) -> (r: Self)
        ensures
            r@ == self@,
    {
        proof {
            use_type_invariant(self);
        }
        let mut scopes: Vec<FocusScope> = Vec::new();
        let mut i: usize = 0;
        while i < self.scopes.len()
            invariant
                i <= self.scopes@.len(),
                scopes@.len() == i,
                forall|k: int| 0 <= k < i ==> #[trigger] scopes@[k].model() == self.scopes@[k].model(),
            decreases self.scopes@.len() - i,
        {
            scopes.push(copy_scope(&self.scopes[i]));
            i = i + 1;
        }
        let ghost copied = Seq::new(scopes@.len(), |k: int| scopes@[k].model());
        assert(copied =~= self@);
        let r = FocusManager { scopes };
        assert(r@ =~= self@);
        r
    }
}

impl Default for FocusManager {
    fn default() -> (r: Self)
        ensures
            r@.len() == 0,
    {
        FocusManager { scopes: Vec::new() }
    }
}

/// Index of the first node of `nodes` satisfying "enabled with id `id`".
fn position_enabled_id(nodes: &Vec<AccessibleNode>, id: &FocusId) -> (r: Option<usize>)
    ensures
        match r {
            Some(i) => focus_index(nodes@, id.0@) == Some(i as int),
            None => focus_index(nodes@, id.0@) is None,
        },
{
    let ghost p = enabled_with_id(id.0@);
    let mut i: usize = 0;
    while i < nodes.len()
        invariant
            0 <= i <= nodes@.len(),
            p == enabled_with_id(id.0@),
            first_from(nodes@, p, 0) == first_from(nodes@, p, i as int),
        decreases nodes@.len() - i,
    {
        if nodes[i].id == *id && nodes[i].enabled {
            return Some(i);
        }
        i = i + 1;
    }
    None
}

/// Index of the first enabled node.
fn position_enabled(nodes: &Vec<AccessibleNode>) -> (r: Option<usize>)
    ensures
        match r {
            Some(i) => first_from(nodes@, enabled_node(), 0) == Some(i as int),
            None => first_from(nodes@, enabled_node(), 0) is None,
        },
{
    let ghost p = enabled_node();
    let mut i: usize = 0;
    while i < nodes.len()
        invariant
            0 <= i <= nodes@.len(),
            p == enabled_node(),
            first_from(nodes@, p, 0) == first_from(nodes@, p, i as int),
        decreases nodes@.len() - i,
    {
        if nodes[i].enabled {
            return Some(i);
        }
        i = i + 1;
    }
    None
}

/// Index of the last enabled node.
fn rposition_enabled(nodes: &Vec<AccessibleNode>) -> (r: Option<usize>)
    ensures
        match r {
            Some(i) => last_before(nodes@, enabled_node(), nodes@.len() as int) == Some(i as int),
            None => last_before(nodes@, enabled_node(), nodes@.len() as int) is None,
        },
{
    let ghost p = enabled_node();
    let mut k: usize = nodes.len();
    while k > 0
        invariant
            0 <= k <= nodes@.len(),
            p == enabled_node(),
            last_before(nodes@, p, nodes@.len() as int) == last_before(nodes@, p, k as int),
        decreases k,
    {
        if nodes[k - 1].enabled {
            return Some(k - 1);
        }
        k = k - 1;
    }
    None
}

/// Steps (with wrap-around) from position `f` until an enabled node is met,
/// trying every position once.
fn scan_from(nodes: &Vec<AccessibleNode>, f: usize, forward: bool) -> (r: Option<usize>)
    requires
        nodes@.len() > 0,
    ensures
        match r {
            Some(i) => scan_enabled(nodes@, f as int % nodes@.len() as int, forward, nodes@.len())
                == Some(i as int),
            None => scan_enabled(nodes@, f as int % nodes@.len() as int, forward, nodes@.len()) is None,
        },
{
    let len = nodes.len();
    let mut index = f % len;
    let mut left = len;
    while left > 0
        invariant
            len == nodes@.len(),
            0 <= index < len,
            left <= len,
            scan_enabled(nodes@, f as int % len as int, forward, len as nat) == scan_enabled(
                nodes@,
                index as int,
                forward,
                left as nat,
            ),
        decreases left,
    {
        index = if forward {
            if index + 1 >= len {
                0
            } else {
                index + 1
            }
        } else {
            if index == 0 {
                len - 1
            } else {
                index - 1
            }
        };
        if nodes[index].enabled {
            return Some(index);
        }
        left = left - 1;
    }
    None
}

/// Iterating `wrap_step` `k` times from `i`.
pub open spec fn wrap_iterate(i: int, len: int, forward: bool, k: nat) -> int
    decreases k,
{
    if k == 0 {
        i
    } else {
        wrap_iterate(wrap_step(i, len, forward), len, forward, (k - 1) as nat)
    }
}

proof fn lemma_wrap_iterate_mod(i: int, len: int, forward: bool, k: nat)
    requires
        0 <= i < len,
    ensures
        forward ==> wrap_iterate(i, len, forward, k) == (i + k) % len,
        !forward ==> wrap_iterate(i, len, forward, k) == (i - k) % len,
    decreases k,
{
    if k == 0 {
        lemma_small_mod(i as nat, len as nat);
    } else {
        let j = wrap_step(i, len, forward);
        lemma_wrap_iterate_mod(j, len, forward, (k - 1) as nat);
        if forward {
            if i + 1 >= len {
                assert(j == (i + 1) % len) by {
                    vstd::arithmetic::div_mod::lemma_mod_self_0(len);
                }
            } else {
                lemma_small_mod((i + 1) as nat, len as nat);
            }
            lemma_add_mod_noop_right(i + 1, (k - 1) as int, len);
            vstd::arithmetic::div_mod::lemma_add_mod_noop(i + 1, (k - 1) as int, len);
            lemma_add_mod_noop_right((i + 1) % len, (k - 1) as int, len);
            vstd::arithmetic::div_mod::lemma_mod_twice(i + 1, len);
        } else {
            if i <= 0 {
                assert(j == (i - 1) % len) by {
                    vstd::arithmetic::div_mod::lemma_mod_sub_multiples_vanish(len - 1, len);
                    lemma_small_mod((len - 1) as nat, len as nat);
                }
            } else {
                lemma_small_mod((i - 1) as nat, len as nat);
            }
            vstd::arithmetic::div_mod::lemma_sub_mod_noop(i - 1, (k - 1) as int, len);
            lemma_sub_mod_noop_right((i - 1) % len, (k - 1) as int, len);
            vstd::arithmetic::div_mod::lemma_mod_twice(i - 1, len);
            lemma_sub_mod_noop_right(i - 1, (k - 1) as int, len);
        }
    }
}

proof fn lemma_scan_finds(nodes: Seq<AccessibleNode>, i: int, forward: bool, left: nat, k: nat)
    requires
        1 <= k <= left,
        0 <= i < nodes.len(),
        nodes[wrap_iterate(i, nodes.len() as int, forward, k)].enabled,
    ensures
        scan_enabled(nodes, i, forward, left) is Some,
    decreases left,
{
    let len = nodes.len() as int;
    let j = wrap_step(i, len, forward);
    assert(wrap_iterate(j, len, forward, 0) == j);
    if !nodes[j].enabled {
        assert(k >= 2);
        lemma_scan_finds(nodes, j, forward, (left - 1) as nat, (k - 1) as nat);
    }
}

/// Stepping the focus through a scope that holds an enabled node always
/// lands on an enabled node, wrapping around the ends, whatever the start.
pub proof fn lemma_scan_covers_all(
    nodes: Seq<AccessibleNode>,
    start: int,
    forward: bool,
    target: int,
)
    requires
        0 <= start < nodes.len(),
        0 <= target < nodes.len(),
        nodes[target].enabled,
    ensures
        scan_enabled(nodes, start, forward, nodes.len()) matches Some(j) && 0 <= j < nodes.len()
            && nodes[j].enabled,
{
    let len = nodes.len() as int;
    let d = if forward {
        (target - start) % len
    } else {
        (start - target) % len
    };
    let k: nat = if d == 0 {
        len as nat
    } else {
        d as nat
    };
    lemma_wrap_iterate_mod(start, len, forward, k);
    if forward {
        lemma_add_mod_noop_right(start, target - start, len);
        lemma_small_mod(target as nat, len as nat);
        if d == 0 {
            vstd::arithmetic::div_mod::lemma_mod_add_multiples_vanish(start, len);
            lemma_small_mod(start as nat, len as nat);
        }
    } else {
        lemma_sub_mod_noop_right(start, start - target, len);
        lemma_small_mod(target as nat, len as nat);
        if d == 0 {
            vstd::arithmetic::div_mod::lemma_mod_sub_multiples_vanish(start, len);
            lemma_small_mod(start as nat, len as nat);
        }
    }
    lemma_scan_finds(nodes, start, forward, len as nat, k);
    lemma_scan_result_enabled(nodes, start, forward, len as nat);
}

proof fn lemma_scan_result_enabled(nodes: Seq<AccessibleNode>, i: int, forward: bool, left: nat)
    requires
        0 <= i < nodes.len(),
    ensures
        scan_enabled(nodes, i, forward, left) matches Some(j) ==> 0 <= j < nodes.len()
            && nodes[j].enabled,
    decreases left,
{
    if left > 0 {
        let j = wrap_step(i, nodes.len() as int, forward);
        lemma_scan_result_enabled(nodes, j, forward, (left - 1) as nat);
    }
}

proof fn lemma_first_from_sound(nodes: Seq<AccessibleNode>, p: spec_fn(AccessibleNode) -> bool, k: int)
    ensures
        first_from(nodes, p, k) matches Some(i) ==> k <= i < nodes.len() && p(nodes[i]),
    decreases nodes.len() - k,
{
    if 0 <= k < nodes.len() && !p(nodes[k]) {
        lemma_first_from_sound(nodes, p, k + 1);
    }
}

proof fn lemma_last_before_sound(
    nodes: Seq<AccessibleNode>,
    p: spec_fn(AccessibleNode) -> bool,
    k: int,
)
    ensures
        last_before(nodes, p, k) matches Some(i) ==> 0 <= i < k && i < nodes.len() && p(nodes[i]),
    decreases k,
{
    if 0 < k <= nodes.len() && !p(nodes[k - 1]) {
        lemma_last_before_sound(nodes, p, k - 1);
    }
}

/// The index chosen when the focus moves is always an enabled node of the
/// scope, or there is none because the scope has no enabled node.
pub proof fn lemma_advanced_focus_is_enabled(scope: ScopeView, forward: bool)
    ensures
        advanced_focus(scope, forward) matches Some(i) ==> 0 <= i < scope.nodes.len()
            && scope.nodes[i].enabled,
        advanced_focus(scope, forward) is None <==> first_from(
            scope.nodes,
            enabled_node(),
            0,
        ) is None,
{
    let nodes = scope.nodes;
    lemma_first_from_sound(nodes, enabled_node(), 0);
    lemma_last_before_sound(nodes, enabled_node(), nodes.len() as int);
    if let Some(t) = first_from(nodes, enabled_node(), 0) {
        match scope.focused {
            None => {
                if !forward {
                    lemma_last_covers(nodes, enabled_node(), nodes.len() as int, t);
                }
            },
            Some(f) => {
                let start = f as int % nodes.len() as int;
                lemma_scan_covers_all(nodes, start, forward, t);
            },
        }
    }
}

proof fn lemma_last_covers(
    nodes: Seq<AccessibleNode>,
    p: spec_fn(AccessibleNode) -> bool,
    k: int,
    t: int,
)
    requires
        0 <= t < k <= nodes.len(),
        p(nodes[t]),
    ensures
        last_before(nodes, p, k) is Some,
    decreases k,
{
    if !p(nodes[k - 1]) {
        lemma_last_covers(nodes, p, k - 1, t);
    }
}

impl FocusManager {
    proof fn lemma_view_len(&self)
        ensures
            self@.len() == self.scopes@.len(),
            forall|i: int| 0 <= i < self.scopes@.len() ==> #[trigger] self@[i] == self.scopes@[i].model(),
    {
    }

    /// Every scope's focus rests on an enabled node of that scope.
    #[verifier::type_invariant]
    spec fn focus_rests_on_enabled(self) -> bool {
        focus_valid(self@)
    }

    fn take_last(&mut self) -> (r: FocusScope)
        requires
            old(self)@.len() > 0,
        ensures
            final(self)@ == old(self)@.drop_last(),
            r.model() == old(self)@.last(),
            scope_valid(r.model()),
    {
        proof {
            use_type_invariant(&*self);
        }
        let ghost before = self@;
        let mut scopes: Vec<FocusScope> = Vec::new();
        std::mem::swap(&mut scopes, &mut self.scopes);
        let r = scopes.pop().unwrap();
        let ghost after = Seq::new(scopes@.len(), |i: int| scopes@[i].model());
        assert(after =~= before.drop_last());
        assert(scope_valid(before[before.len() - 1]));
        assert forall|i: int| 0 <= i < after.len() implies #[trigger] scope_valid(after[i]) by {
            assert(after[i] == before[i]);
            assert(scope_valid(before[i]));
        }
        self.scopes = scopes;
        assert(self@ =~= after);
        r
    }

    fn put_last(&mut self, scope: FocusScope)
        requires
            scope_valid(scope.model()),
        ensures
            final(self)@ == old(self)@.push(scope.model()),
    {
        proof {
            use_type_invariant(&*self);
        }
        let ghost before = self@;
        let mut scopes: Vec<FocusScope> = Vec::new();
        std::mem::swap(&mut scopes, &mut self.scopes);
        scopes.push(scope);
        let ghost after = Seq::new(scopes@.len(), |i: int| scopes@[i].model());
        assert(after =~= before.push(scope.model()));
        assert forall|i: int| 0 <= i < after.len() implies #[trigger] scope_valid(after[i]) by {
            if i < before.len() {
                assert(after[i] == before[i]);
                assert(scope_valid(before[i]));
            }
        }
        self.scopes = scopes;
        assert(self@ =~= after);
    }

    /// Replaces the root scope's nodes, keeping the focus on the node with
    /// the same identifier when it is still present and enabled.
    pub fn replace_root(&mut self, nodes: Vec<AccessibleNode>)
        ensures
            final(self)@ == replace_root_model(old(self)@, nodes@),
    {
        let focused = match self.current_id() {
            Some(id) => position_enabled_id(&nodes, id),
            None => None,
        };
        let ghost nv = nodes@;
        proof {
            use_type_invariant(&*self);
            if let Some(i) = focused {
                lemma_first_from_sound(nodes@, enabled_with_id(current_id_of(self@)->0), 0);
                assert(enabled_with_id(current_id_of(self@)->0)(nodes@[i as int]));
            }
        }
        let root = FocusScope {
            id: String::from_str("root"),
            nodes,
            focused,
            restore: None,
        };
        proof {
            reveal_strlit("root");
        }
        let ghost before = self@;
        let mut scopes: Vec<FocusScope> = Vec::new();
        std::mem::swap(&mut scopes, &mut self.scopes);
        if scopes.len() == 0 {
            scopes.push(root);
        } else {
            scopes.set(0, root);
        }
        let ghost after = Seq::new(scopes@.len(), |i: int| scopes@[i].model());
        assert(after =~= replace_root_model(before, nv));
        proof {
            lemma_operations_keep_focus_valid(before, nv, Seq::empty(), true);
        }
        self.scopes = scopes;
        assert(self@ =~= after);
    }

    /// Opens a scope (dialog, popup) that traps the focus; it starts on its
    /// first enabled node and remembers the focus to restore.
    ///
    /// Popping it right away hands back, and focuses again, the node that
    /// had the focus, and leaves as many scopes as before.
    pub fn push_scope(&mut self, id: &str, nodes: Vec<AccessibleNode>)
        ensures
            final(self)@ == push_model(old(self)@, id@, nodes@),
            focus_valid(old(self)@),
            old(self)@.len() >= 1 ==> pop_result(final(self)@) == current_id_of(old(self)@)
                && current_id_of(pop_model(final(self)@)) == current_id_of(old(self)@)
                && pop_model(final(self)@).len() == old(self)@.len(),
    {
        proof {
            use_type_invariant(&*self);
            if self@.len() >= 1 {
                lemma_push_then_pop_restores_focus(self@, id@, nodes@);
            }
        }
        let restore = match self.current_id() {
            Some(id) => Some(id.duplicate()),
            None => None,
        };
        let focused = position_enabled(&nodes);
        proof {
            lemma_first_from_sound(nodes@, enabled_node(), 0);
            if let Some(i) = focused {
                assert(enabled_node()(nodes@[i as int]));
            }
        }
        let scope = FocusScope { id: String::from_str(id), nodes, focused, restore };
        self.put_last(scope);
    }

    /// Closes the innermost scope (never the root) and focuses the node that
    /// was focused when it opened, returning that node's identifier.
    pub fn pop_scope(&mut self) -> (r: Option<FocusId>)
        ensures
            final(self)@ == pop_model(old(self)@),
            match r {
                Some(id) => pop_result(old(self)@) == Some(id.0@),
                None => pop_result(old(self)@) is None,
            },
    {
        if self.scopes.len() <= 1 {
            return None;
        }
        let scope = self.take_last();
        let restore = scope.restore;
        if let Some(id) = &restore {
            self.focus(id);
        }
        restore
    }

    /// Identifier of the innermost scope.
    pub fn active_scope_id(&self) -> (r: Option<&str>)
        ensures
            match r {
                Some(s) => self@.len() > 0 && s@ == self@.last().id,
                None => self@.len() == 0,
            },
    {
        if self.scopes.len() == 0 {
            None
        } else {
            Some(self.scopes[self.scopes.len() - 1].id.as_str())
        }
    }

    /// The focused node of the innermost scope.
    pub fn current(&self) -> (r: Option<&AccessibleNode>)
        ensures
            match r {
                Some(node) => current_of(self@) == Some(*node),
                None => current_of(self@) is None,
            },
    {
        if self.scopes.len() == 0 {
            return None;
        }
        let scope = &self.scopes[self.scopes.len() - 1];
        match scope.focused {
            Some(index) => if index < scope.nodes.len() {
                Some(&scope.nodes[index])
            } else {
                None
            },
            None => None,
        }
    }

    /// Identifier of the focused node of the innermost scope.
    pub fn current_id(&self) -> (r: Option<&FocusId>)
        ensures
            match r {
                Some(id) => current_id_of(self@) == Some(id.0@),
                None => current_id_of(self@) is None,
            },
    {
        match self.current() {
            Some(node) => Some(&node.id),
            None => None,
        }
    }

    /// Focuses the first enabled node with identifier `id` in the innermost
    /// scope; returns whether such a node exists.
    pub fn focus(&mut self, id: &FocusId) -> (r: bool)
        ensures
            final(self)@ == focus_model(old(self)@, id.0@),
            r == (old(self)@.len() > 0 && focus_index(old(self)@.last().nodes, id.0@) is Some),
    {
        if self.scopes.len() == 0 {
            return false;
        }
        let ghost before = self@;
        let mut scope = self.take_last();
        let index = position_enabled_id(&scope.nodes, id);
        proof {
            lemma_first_from_sound(scope.nodes@, enabled_with_id(id.0@), 0);
            if let Some(i) = index {
                assert(enabled_with_id(id.0@)(scope.nodes@[i as int]));
            }
        }
        match index {
            Some(i) => {
                scope.focused = Some(i);
                self.put_last(scope);
                assert(self@ =~= focus_model(before, id.0@));
                true
            },
            None => {
                self.put_last(scope);
                assert(self@ =~= before);
                false
            },
        }
    }

    /// Removes the focus from the innermost scope.
    pub fn clear(&mut self)
        ensures
            final(self)@ == clear_model(old(self)@),
    {
        if self.scopes.len() > 0 {
            let ghost before = self@;
            let mut scope = self.take_last();
            scope.focused = None;
            self.put_last(scope);
            assert(self@ =~= clear_model(before));
        }
    }

    /// Moves the focus to the next enabled node of the innermost scope,
    /// wrapping from the last to the first.
    ///
    /// Every scope's focus rests on one of its enabled nodes, before and
    /// after, so `lemma_focus_moves_to_first_enabled` gives the node reached.
    pub fn focus_next(&mut self) -> (r: Option<&AccessibleNode>)
        ensures
            Self::advance_post(*old(self), *final(self), true, r),
            focus_valid(old(self)@),
            focus_valid(final(self)@),
            reaches_first_enabled(old(self)@, true, match r {
                Some(n) => Some(*n),
                None => None,
            }),
    {
        proof {
            use_type_invariant(&*self);
            let v = self@;
            if v.len() > 0 && v.last().focused is Some && first_from(v.last().nodes, enabled_node(), 0) is Some {
                assert(scope_valid(v[v.len() - 1]));
                lemma_focus_moves_to_first_enabled(v.last(), v.last().focused->0, true);
            }
        }
        self.advance(true)
    }

    /// Moves the focus to the previous enabled node of the innermost scope,
    /// wrapping from the first to the last.
    pub fn focus_previous(&mut self) -> (r: Option<&AccessibleNode>)
        ensures
            Self::advance_post(*old(self), *final(self), false, r),
            focus_valid(old(self)@),
            focus_valid(final(self)@),
            reaches_first_enabled(old(self)@, false, match r {
                Some(n) => Some(*n),
                None => None,
            }),
    {
        proof {
            use_type_invariant(&*self);
            let v = self@;
            if v.len() > 0 && v.last().focused is Some && first_from(v.last().nodes, enabled_node(), 0) is Some {
                assert(scope_valid(v[v.len() - 1]));
                lemma_focus_moves_to_first_enabled(v.last(), v.last().focused->0, false);
            }
        }
        self.advance(false)
    }

    /// What one focus move does: the innermost scope's focus becomes
    /// `advanced_focus`, and the newly focused node is returned.
    pub open spec fn advance_post(
        before: FocusManager,
        after: FocusManager,
        forward: bool,
        r: Option<&AccessibleNode>,
    ) -> bool {
        if before@.len() == 0 {
            r is None && after@ == before@
        } else {
            let scope = before@.last();
            let target = advanced_focus(scope, forward);
            &&& after@ == advance_model(before@, forward)
            &&& match r {
                Some(node) => target matches Some(i) && 0 <= i < scope.nodes.len()
                    && scope.nodes[i] == *node,
                None => target is None,
            }
        }
    }

    fn advance(&mut self, forward: bool) -> (r: Option<&AccessibleNode>)
        ensures
            Self::advance_post(*old(self), *final(self), forward, r),
            focus_valid(old(self)@),
            focus_valid(final(self)@),
    {
        proof {
            use_type_invariant(&*self);
            lemma_operations_keep_focus_valid(self@, Seq::empty(), Seq::empty(), forward);
        }
        if self.scopes.len() == 0 {
            return None;
        }
        let ghost before = self@;
        let mut scope = self.take_last();
        let ghost model = scope.model();
        proof {
            lemma_advanced_focus_is_enabled(model, forward);
        }
        let first = position_enabled(&scope.nodes);
        let target: Option<usize> = if first.is_none() {
            None
        } else {
            match scope.focused {
                None => if forward {
                    first
                } else {
                    rposition_enabled(&scope.nodes)
                },
                Some(f) => scan_from(&scope.nodes, f, forward),
            }
        };
        assert(match target {
            Some(i) => advanced_focus(model, forward) == Some(i as int),
            None => advanced_focus(model, forward) is None,
        });
        scope.focused = target;
        assert(scope_valid(scope.model()));
        self.put_last(scope);
        proof {
            assert(self@ =~= advance_model(before, forward));
        }
        match target {
            Some(i) => {
                let s = &self.scopes[self.scopes.len() - 1];
                proof {
                    self.lemma_view_len();
                    assert(self@[self@.len() - 1] == self.scopes@[self.scopes@.len() - 1].model());
                }
                assert(s.nodes@ == model.nodes);
                Some(&s.nodes[i])
            },
            None => None,
        }
    }
}

/// When the innermost scope of `before` has a focused node `i` and an
/// enabled node, the node reached is the first enabled one met stepping
/// from `i` with wrap-around (`i` itself when it is the only enabled one).
pub open spec fn reaches_first_enabled(before: Seq<ScopeView>, forward: bool, r: Option<AccessibleNode>) -> bool {
    before.len() > 0 && before.last().focused is Some && first_from(before.last().nodes, enabled_node(), 0) is Some
        ==> {
        let nodes = before.last().nodes;
        let i = before.last().focused->0;
        r matches Some(n) && exists|d: int|
            {
                &&& 1 <= d <= nodes.len()
                &&& n == nodes[#[trigger] ahead(i, d, nodes.len() as int, forward)]
                &&& forall|k: int|
                    1 <= k < d ==> !nodes[#[trigger] ahead(i, k, nodes.len() as int, forward)].enabled
            }
    }
}

/// The position `d` steps from `i` among `len`, forwards or backwards,
/// wrapping round.
pub open spec fn ahead(i: int, d: int, len: int, forward: bool) -> int {
    if forward {
        (i + d) % len
    } else {
        (i - d) % len
    }
}

proof fn lemma_wrap_step_in_range(i: int, len: int, forward: bool)
    requires
        0 <= i < len,
    ensures
        0 <= wrap_step(i, len, forward) < len,
{
}

/// The scan stops at the first enabled node it meets: `d` steps away, every
/// node met before it disabled.
proof fn lemma_scan_first(nodes: Seq<AccessibleNode>, i: int, forward: bool, left: nat) -> (d: nat)
    requires
        0 <= i < nodes.len(),
    ensures
        scan_enabled(nodes, i, forward, left) matches Some(j) ==> {
            &&& 1 <= d <= left
            &&& j == wrap_iterate(i, nodes.len() as int, forward, d)
            &&& forall|k: nat|
                1 <= k < d ==> !nodes[#[trigger] wrap_iterate(i, nodes.len() as int, forward, k)].enabled
        },
    decreases left,
{
    let len = nodes.len() as int;
    if left == 0 {
        0
    } else {
        let j = wrap_step(i, len, forward);
        lemma_wrap_step_in_range(i, len, forward);
        assert(wrap_iterate(i, len, forward, 1) == wrap_iterate(j, len, forward, 0));
        if nodes[j].enabled {
            1
        } else {
            let d1 = lemma_scan_first(nodes, j, forward, (left - 1) as nat);
            if let Some(found) = scan_enabled(nodes, i, forward, left) {
                assert(wrap_iterate(i, len, forward, d1 + 1) == wrap_iterate(j, len, forward, d1));
                assert forall|k: nat| 1 <= k < d1 + 1 implies !nodes[#[trigger] wrap_iterate(
                    i,
                    len,
                    forward,
                    k,
                )].enabled by {
                    assert(wrap_iterate(i, len, forward, k) == wrap_iterate(
                        j,
                        len,
                        forward,
                        (k - 1) as nat,
                    ));
                }
            }
            d1 + 1
        }
    }
}

/// Moving the focus from focused node `i` lands on the first enabled node
/// met stepping from `i` with wrap-around (`i` itself when it is the only
/// enabled one): `d` steps away, with every node met before it disabled.
pub proof fn lemma_focus_moves_to_first_enabled(scope: ScopeView, i: int, forward: bool)
    requires
        scope.focused == Some(i),
        0 <= i < scope.nodes.len(),
        first_from(scope.nodes, enabled_node(), 0) is Some,
    ensures
        advanced_focus(scope, forward) matches Some(j) && exists|d: int|
            {
                &&& 1 <= d <= scope.nodes.len()
                &&& j == #[trigger] ahead(i, d, scope.nodes.len() as int, forward)
                &&& forall|k: int|
                    1 <= k < d ==> !scope.nodes[#[trigger] ahead(
                        i,
                        k,
                        scope.nodes.len() as int,
                        forward,
                    )].enabled
            },
{
    let nodes = scope.nodes;
    let len = nodes.len() as int;
    lemma_small_mod(i as nat, len as nat);
    assert(i % len == i);
    lemma_first_from_sound(nodes, enabled_node(), 0);
    let t = first_from(nodes, enabled_node(), 0).unwrap();
    lemma_scan_covers_all(nodes, i, forward, t);
    let d = lemma_scan_first(nodes, i, forward, len as nat);
    let j = advanced_focus(scope, forward).unwrap();
    lemma_wrap_iterate_mod(i, len, forward, d);
    assert(j == ahead(i, d as int, len, forward));
    assert forall|k: int| 1 <= k < d implies !nodes[#[trigger] ahead(i, k, len, forward)].enabled by {
        lemma_wrap_iterate_mod(i, len, forward, k as nat);
        assert(!nodes[wrap_iterate(i, len, forward, k as nat)].enabled);
    }
}

} // verus!
