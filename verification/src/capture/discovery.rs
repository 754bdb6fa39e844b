//! Compositor globals and outputs.

use vstd::prelude::*;

use crate::capture::REQUIRED_GLOBALS;
use crate::text::{begins_with, chars_of, lemma_map_push, same_str, starts_with, strings};

verus! {

/// A compositor global, as advertised by the registry.
#[derive(Debug, Clone)]
pub struct GlobalInfo {
    pub interface: String,
    pub version: u32,
}

pub ghost struct GlobalView {
    pub interface: Seq<char>,
    pub version: u32,
}

impl View for GlobalInfo {
    type V = GlobalView;

    open spec fn view(&self) -> GlobalView {
        GlobalView { interface: self.interface@, version: self.version }
    }
}

pub open spec fn global_views(v: Seq<GlobalInfo>) -> Seq<GlobalView> {
    v.map_values(|g: GlobalInfo| g@)
}

/// Current state of an output.
#[derive(Debug, Clone)]
pub struct OutputInfo {
    pub name: String,
    pub description: String,
    pub width: i32,
    pub height: i32,
    /// Refresh rate in mHz.
    pub refresh_mhz: i32,
}

pub ghost struct OutputInfoView {
    pub name: Seq<char>,
    pub description: Seq<char>,
    pub width: i32,
    pub height: i32,
    pub refresh_mhz: i32,
}

impl View for OutputInfo {
    type V = OutputInfoView;

    open spec fn view(&self) -> OutputInfoView {
        OutputInfoView {
            name: self.name@,
            description: self.description@,
            width: self.width,
            height: self.height,
            refresh_mhz: self.refresh_mhz,
        }
    }
}

impl Default for OutputInfo {
    fn default() -> (r: Self)
        ensures
            r@ == (OutputInfoView {
                name: Seq::empty(),
                description: Seq::empty(),
                width: 0,
                height: 0,
                refresh_mhz: 0,
            }),
    {
        let name = String::new();
        let description = String::new();
        assert(name@ =~= Seq::<char>::empty());
        assert(description@ =~= Seq::<char>::empty());
        OutputInfo { name, description, width: 0, height: 0, refresh_mhz: 0 }
    }
}

impl OutputInfo {
    /// Hyprland names virtual outputs `HEADLESS-N`.
    pub fn is_headless(&self) -> (r: bool)
        ensures
            r == begins_with(self.name@, "HEADLESS-"@),
    {
        let cs = chars_of(self.name.as_str());
        let prefix = chars_of("HEADLESS-");
        starts_with(cs.as_slice(), prefix.as_slice())
    }
}

/// What the compositor says of an output.
#[derive(Debug)]
pub enum OutputEvent {
    Name(String),
    Description(String),
    /// One of the modes; only the current one describes what is captured.
    Mode { current: bool, width: i32, height: i32, refresh: i32 },
    Other,
}

/// An output after what was said of it.
pub open spec fn after_event(info: OutputInfoView, event: OutputEvent) -> OutputInfoView {
    match event {
        OutputEvent::Name(name) => OutputInfoView { name: name@, ..info },
        OutputEvent::Description(description) => OutputInfoView {
            description: description@,
            ..info
        },
        OutputEvent::Mode { current, width, height, refresh } => if current {
            OutputInfoView { width, height, refresh_mhz: refresh, ..info }
        } else {
            info
        },
        OutputEvent::Other => info,
    }
}

/// The outputs found so far.
#[derive(Debug)]
pub struct Discovery {
    pub outputs: Vec<OutputInfo>,
}

pub open spec fn output_views(v: Seq<OutputInfo>) -> Seq<OutputInfoView> {
    v.map_values(|o: OutputInfo| o@)
}

impl Discovery {
    pub fn new() -> (r: Self)
        ensures
            r.outputs@.len() == 0,
    {
        Discovery { outputs: Vec::new() }
    }

    /// Make room for one more output.
    pub fn add(&mut self) -> (index: usize)
        ensures
            index == old(self).outputs@.len(),
            output_views(final(self).outputs@) == output_views(old(self).outputs@).push(
                OutputInfoView {
                    name: Seq::empty(),
                    description: Seq::empty(),
                    width: 0,
                    height: 0,
                    refresh_mhz: 0,
                },
            ),
    {
        broadcast use lemma_map_push;

        let index: usize = self.outputs.len();
        self.outputs.push(OutputInfo::default());
        index
    }

    /// Take in what was said of the output with the given index; of one that
    /// is not there nothing is kept.
    pub fn on_event(&mut self, index: usize, event: OutputEvent)
        ensures
            output_views(final(self).outputs@) == (if index < old(self).outputs@.len() {
                output_views(old(self).outputs@).update(
                    index as int,
                    after_event(old(self).outputs@[index as int]@, event),
                )
            } else {
                output_views(old(self).outputs@)
            }),
    {
        if index >= self.outputs.len() {
            return;
        }
        let ghost before = self.outputs@;
        match event {
            OutputEvent::Name(name) => {
                self.outputs[index].name = name;
            },
            OutputEvent::Description(description) => {
                self.outputs[index].description = description;
            },
            OutputEvent::Mode { current, width, height, refresh } => {
                if current {
                    self.outputs[index].width = width;
                    self.outputs[index].height = height;
                    self.outputs[index].refresh_mhz = refresh;
                }
            },
            OutputEvent::Other => {},
        }
        assert(output_views(self.outputs@) =~= output_views(before).update(
            index as int,
            after_event(before[index as int]@, event),
        ));
    }
}

// ----------------------------------------------------------------- globals ---

/// A global in the registry.
#[derive(Debug)]
pub struct RegistryGlobal {
    pub name: u32,
    pub interface: String,
    pub version: u32,
}

/// The outputs among the globals, each with the version to bind: nothing newer
/// than version 4 is needed.
pub open spec fn outputs_among(globals: Seq<RegistryGlobal>) -> Seq<(u32, u32)>
    decreases globals.len(),
{
    if globals.len() == 0 {
        Seq::empty()
    } else {
        let earlier = outputs_among(globals.drop_last());
        let g = globals.last();
        if g.interface@ == "wl_output"@ {
            earlier.push(
                (
                    g.name,
                    if g.version <= 4 {
                        g.version
                    } else {
                        4
                    },
                ),
            )
        } else {
            earlier
        }
    }
}

/// The outputs to bind.
pub fn output_globals(globals: &Vec<RegistryGlobal>) -> (r: Vec<(u32, u32)>)
    ensures
        r@ == outputs_among(globals@),
{
    let mut out: Vec<(u32, u32)> = Vec::new();
    let mut i: usize = 0;
    while i < globals.len()
        invariant
            i <= globals@.len(),
            out@ == outputs_among(globals@.take(i as int)),
        decreases globals@.len() - i,
    {
        assert(globals@.take(i + 1).drop_last() =~= globals@.take(i as int));
        if same_str(globals[i].interface.as_str(), "wl_output") {
            let version: u32 = if globals[i].version <= 4 {
                globals[i].version
            } else {
                4
            };
            out.push((globals[i].name, version));
        }
        i += 1;
    }
    assert(globals@.take(i as int) =~= globals@);
    out
}

/// Whether `a` comes before `b` or is the same: by the first character that
/// differs, a text before its continuations.
pub open spec fn not_after(a: Seq<char>, b: Seq<char>) -> bool
    decreases a.len(),
{
    if a.len() == 0 {
        true
    } else if b.len() == 0 {
        false
    } else if a[0] != b[0] {
        a[0] < b[0]
    } else {
        not_after(a.skip(1), b.skip(1))
    }
}

fn is_not_after(a: &str, b: &str) -> (r: bool)
    ensures
        r == not_after(a@, b@),
{
    let x = chars_of(a);
    let y = chars_of(b);
    let mut i: usize = 0;
    proof {
        assert(x@.skip(0) =~= x@);
        assert(y@.skip(0) =~= y@);
    }
    while i < x.len()
        invariant
            x@ == a@,
            y@ == b@,
            i <= x@.len(),
            i <= y@.len(),
            not_after(x@, y@) == not_after(x@.skip(i as int), y@.skip(i as int)),
        decreases x@.len() - i,
    {
        if i == y.len() {
            return false;
        }
        if x[i] != y[i] {
            return x[i] < y[i];
        }
        assert(x@.skip(i as int).skip(1) =~= x@.skip(i + 1));
        assert(y@.skip(i as int).skip(1) =~= y@.skip(i + 1));
        i += 1;
    }
    true
}

/// The order is total and transitive.
pub proof fn order_is_total(a: Seq<char>, b: Seq<char>, c: Seq<char>)
    ensures
        not_after(a, b) || not_after(b, a),
        not_after(a, b) && not_after(b, a) ==> a == b,
        not_after(a, b) && not_after(b, c) ==> not_after(a, c),
    decreases a.len() + b.len() + c.len(),
{
    if a.len() > 0 && b.len() > 0 && a[0] == b[0] {
        if c.len() > 0 && b[0] == c[0] {
            order_is_total(a.skip(1), b.skip(1), c.skip(1));
        } else {
            order_is_total(a.skip(1), b.skip(1), Seq::empty());
        }
        if not_after(a, b) && not_after(b, a) {
            assert(a =~= seq![a[0]] + a.skip(1));
            assert(b =~= seq![b[0]] + b.skip(1));
        }
    } else if a.len() == 0 && b.len() == 0 {
        assert(a =~= b);
    }
}

/// Where one more global goes in a list: behind all that do not come after it.
pub open spec fn place_of(list: Seq<GlobalView>, g: GlobalView) -> int
    decreases list.len(),
{
    if list.len() == 0 {
        0
    } else if not_after(list.last().interface, g.interface) {
        list.len() as int
    } else {
        place_of(list.drop_last(), g)
    }
}

/// The globals by the name of their interface; those of one interface stay in
/// the order in which they came.
pub open spec fn sorted_globals(globals: Seq<GlobalView>) -> Seq<GlobalView>
    decreases globals.len(),
{
    if globals.len() == 0 {
        Seq::empty()
    } else {
        let earlier = sorted_globals(globals.drop_last());
        earlier.insert(place_of(earlier, globals.last()), globals.last())
    }
}

pub open spec fn advertised_view(g: RegistryGlobal) -> GlobalView {
    GlobalView { interface: g.interface@, version: g.version }
}

proof fn lemma_place_of(list: Seq<GlobalView>, g: GlobalView)
    ensures
        0 <= place_of(list, g) <= list.len(),
        place_of(list, g) > 0 ==> not_after(list[place_of(list, g) - 1].interface, g.interface),
        forall|i: int|
            place_of(list, g) <= i < list.len() ==> !not_after(
                (#[trigger] list[i]).interface,
                g.interface,
            ),
    decreases list.len(),
{
    if list.len() > 0 && !not_after(list.last().interface, g.interface) {
        let head = list.drop_last();
        lemma_place_of(head, g);
        let at = place_of(list, g);
        assert(at == place_of(head, g));
        if at > 0 {
            assert(head[at - 1] == list[at - 1]);
        }
        assert forall|i: int| at <= i < list.len() implies !not_after(
            (#[trigger] list[i]).interface,
            g.interface,
        ) by {
            if i < head.len() {
                assert(head[i] == list[i]);
            }
        }
    }
}

/// What the registry advertises, by the name of the interface.
pub fn advertised(globals: &Vec<RegistryGlobal>) -> (r: Vec<GlobalInfo>)
    ensures
        global_views(r@) == sorted_globals(
            globals@.map_values(|g: RegistryGlobal| advertised_view(g)),
        ),
{
    let ghost all = globals@.map_values(|g: RegistryGlobal| advertised_view(g));
    let mut out: Vec<GlobalInfo> = Vec::new();
    let mut i: usize = 0;
    assert(global_views(out@) =~= sorted_globals(all.take(0)));
    while i < globals.len()
        invariant
            i <= globals@.len(),
            all == globals@.map_values(|g: RegistryGlobal| advertised_view(g)),
            global_views(out@) == sorted_globals(all.take(i as int)),
        decreases globals@.len() - i,
    {
        let info = GlobalInfo {
            interface: globals[i].interface.clone(),
            version: globals[i].version,
        };
        let ghost list = global_views(out@);
        let ghost g = info@;
        assert(all[i as int] == g);
        assert(all.take(i + 1).drop_last() =~= all.take(i as int));
        let mut at: usize = out.len();
        assert(list.take(at as int) =~= list);
        while at > 0 && !is_not_after(out[at - 1].interface.as_str(), info.interface.as_str())
            invariant
                at <= out@.len(),
                list == global_views(out@),
                g == info@,
                place_of(list, g) == place_of(list.take(at as int), g),
            decreases at,
        {
            assert(list.take(at as int).drop_last() =~= list.take(at - 1));
            assert(list.take(at as int).last() == out@[at - 1]@);
            at -= 1;
        }
        assert(at > 0 ==> list.take(at as int).last() == out@[at - 1]@);
        assert(place_of(list, g) == at);
        let ghost before = out@;
        out.insert(at, info);
        assert(global_views(out@) =~= list.insert(at as int, g));
        i += 1;
    }
    assert(all.take(i as int) =~= all);
    out
}

/// The names of the interfaces stand in order.
pub proof fn globals_are_sorted(globals: Seq<GlobalView>)
    ensures
        forall|i: int, j: int|
            0 <= i < j < sorted_globals(globals).len() ==> not_after(
                (#[trigger] sorted_globals(globals)[i]).interface,
                (#[trigger] sorted_globals(globals)[j]).interface,
            ),
    decreases globals.len(),
{
    if globals.len() > 0 {
        let earlier = sorted_globals(globals.drop_last());
        let g = globals.last();
        globals_are_sorted(globals.drop_last());
        lemma_place_of(earlier, g);
        let at = place_of(earlier, g);
        let all = sorted_globals(globals);
        assert(all == earlier.insert(at, g));
        assert forall|i: int, j: int| 0 <= i < j < all.len() implies not_after(
            (#[trigger] all[i]).interface,
            (#[trigger] all[j]).interface,
        ) by {
            if i < at && j == at {
                if i < at - 1 {
                    assert(not_after(earlier[i].interface, earlier[at - 1].interface));
                }
                order_is_total(
                    earlier[i].interface,
                    earlier[at - 1].interface,
                    g.interface,
                );
            } else if i == at {
                assert(all[j] == earlier[j - 1]);
                order_is_total(g.interface, earlier[j - 1].interface, g.interface);
            } else {
                let i0 = if i < at {
                    i
                } else {
                    i - 1
                };
                let j0 = if j < at {
                    j
                } else {
                    j - 1
                };
                assert(not_after(earlier[i0].interface, earlier[j0].interface));
            }
        }
    }
}

/// Nothing is lost or made up.
pub proof fn globals_are_all_there(globals: Seq<GlobalView>)
    ensures
        sorted_globals(globals).to_multiset() == globals.to_multiset(),
    decreases globals.len(),
{
    broadcast use vstd::seq_lib::group_to_multiset_ensures;

    if globals.len() > 0 {
        let head = globals.drop_last();
        let earlier = sorted_globals(head);
        globals_are_all_there(head);
        lemma_place_of(earlier, globals.last());
        vstd::seq_lib::to_multiset_insert(
            earlier,
            place_of(earlier, globals.last()),
            globals.last(),
        );
        assert(globals =~= head.push(globals.last()));
    } else {
        assert(sorted_globals(globals) =~= globals);
    }
}

// ---------------------------------------------------------------- required ---

/// Whether an interface is advertised.
pub open spec fn is_advertised(globals: Seq<GlobalView>, interface: Seq<char>) -> bool {
    exists|i: int| 0 <= i < globals.len() && (#[trigger] globals[i]).interface == interface
}

/// The first `n` required interfaces that are not advertised, in order.
pub open spec fn missing_among(globals: Seq<GlobalView>, n: int) -> Seq<Seq<char>>
    decreases n,
{
    if n <= 0 {
        Seq::empty()
    } else {
        let earlier = missing_among(globals, n - 1);
        if is_advertised(globals, REQUIRED_GLOBALS@[n - 1]@) {
            earlier
        } else {
            earlier.push(REQUIRED_GLOBALS@[n - 1]@)
        }
    }
}

fn has_interface(globals: &Vec<GlobalInfo>, interface: &str) -> (r: bool)
    ensures
        r == is_advertised(global_views(globals@), interface@),
{
    let ghost views = global_views(globals@);
    let mut i: usize = 0;
    while i < globals.len()
        invariant
            i <= globals@.len(),
            views == global_views(globals@),
            forall|j: int| 0 <= j < i ==> (#[trigger] views[j]).interface != interface@,
        decreases globals@.len() - i,
    {
        assert(views[i as int] == globals@[i as int]@);
        if same_str(globals[i].interface.as_str(), interface) {
            return true;
        }
        i += 1;
    }
    false
}

/// The interfaces that capture needs and the compositor lacks.
pub fn missing_globals(globals: &Vec<GlobalInfo>) -> (r: Vec<String>)
    ensures
        strings(r@) == missing_among(global_views(globals@), 4),
{
    broadcast use lemma_map_push;

    let mut out: Vec<String> = Vec::new();
    let mut i: usize = 0;
    assert(strings(out@) =~= Seq::<Seq<char>>::empty());
    while i < 4
        invariant
            i <= 4,
            strings(out@) == missing_among(global_views(globals@), i as int),
        decreases 4 - i,
    {
        let wanted = REQUIRED_GLOBALS[i];
        if !has_interface(globals, wanted) {
            out.push(String::from_str(wanted));
        }
        i += 1;
    }
    out
}

// -------------------------------------------------------------------- laws ---

/// Names are in the order of a dictionary: the first character that differs
/// decides, and a name that another continues comes before it.
pub proof fn names_are_in_dictionary_order(
    front: Seq<char>,
    a: char,
    b: char,
    x: Seq<char>,
    y: Seq<char>,
)
    ensures
        not_after(front, front + x),
        a < b ==> not_after(front + seq![a] + x, front + seq![b] + y),
        b < a ==> !not_after(front + seq![a] + x, front + seq![b] + y),
    decreases front.len(),
{
    let l = front + seq![a] + x;
    let r = front + seq![b] + y;
    if front.len() > 0 {
        names_are_in_dictionary_order(front.skip(1), a, b, x, y);
        assert(l.skip(1) =~= front.skip(1) + seq![a] + x);
        assert(r.skip(1) =~= front.skip(1) + seq![b] + y);
        assert((front + x).skip(1) =~= front.skip(1) + x);
        assert(l[0] == front[0] && r[0] == front[0] && (front + x)[0] == front[0]);
    } else {
        assert(l[0] == a && r[0] == b);
    }
}

/// Every output that is advertised is bound, in order, at its own version up to the
/// fourth; nothing else is.
pub proof fn outputs_are_all_bound(globals: Seq<RegistryGlobal>, g: RegistryGlobal)
    ensures
        outputs_among(Seq::<RegistryGlobal>::empty()) == Seq::<(u32, u32)>::empty(),
        g.interface@ == "wl_output"@ ==> outputs_among(globals.push(g)).drop_last()
            == outputs_among(globals) && outputs_among(globals.push(g)).last().0 == g.name && (
        g.version <= 4 ==> outputs_among(globals.push(g)).last().1 == g.version) && (g.version > 4
            ==> outputs_among(globals.push(g)).last().1 == 4),
        g.interface@ != "wl_output"@ ==> outputs_among(globals.push(g)) == outputs_among(globals),
{
    assert(globals.push(g).drop_last() =~= globals);
    if g.interface@ == "wl_output"@ {
        assert(outputs_among(globals.push(g)).drop_last() =~= outputs_among(globals));
    }
}

/// What is said of an output is kept as it was said; of its modes only the current
/// one counts.
pub proof fn outputs_are_described(info: OutputInfoView, event: OutputEvent)
    ensures
        ({
            let after = after_event(info, event);
            &&& event matches OutputEvent::Name(n) ==> after.name == n@
            &&& !(event is Name) ==> after.name == info.name
            &&& event matches OutputEvent::Description(d) ==> after.description == d@
            &&& !(event is Description) ==> after.description == info.description
            &&& event matches OutputEvent::Mode { current: true, width, height, refresh } ==> after.width
                == width && after.height == height && after.refresh_mhz == refresh
            &&& !(event matches OutputEvent::Mode { current: true, .. }) ==> after.width
                == info.width && after.height == info.height && after.refresh_mhz
                == info.refresh_mhz
        }),
{
}

/// What is missing is just those of the four interfaces that no global has.
pub proof fn missing_interfaces_are_told(globals: Seq<GlobalView>, interface: Seq<char>)
    ensures
        missing_among(globals, 4).contains(interface) <==> {
            &&& exists|k: int| 0 <= k < 4 && #[trigger] REQUIRED_GLOBALS@[k]@ == interface
            &&& forall|i: int|
                0 <= i < globals.len() ==> (#[trigger] globals[i]).interface != interface
        },
        missing_among(globals, 4).len() <= 4,
{
    lemma_missing(globals, 4, interface);
}

proof fn lemma_missing(globals: Seq<GlobalView>, n: int, interface: Seq<char>)
    requires
        0 <= n <= 4,
    ensures
        missing_among(globals, n).contains(interface) <==> !is_advertised(globals, interface)
            && exists|k: int| 0 <= k < n && #[trigger] REQUIRED_GLOBALS@[k]@ == interface,
        missing_among(globals, n).len() <= n,
    decreases n,
{
    if n > 0 {
        lemma_missing(globals, n - 1, interface);
        let earlier = missing_among(globals, n - 1);
        let all = missing_among(globals, n);
        let w = REQUIRED_GLOBALS@[n - 1]@;
        if !is_advertised(globals, w) {
            assert(all == earlier.push(w));
            assert(all[earlier.len() as int] == w);
            if earlier.contains(interface) {
                let i = earlier.index_of(interface);
                assert(all[i] == interface);
            }
            if all.contains(interface) {
                let i = all.index_of(interface);
                if i < earlier.len() {
                    assert(earlier[i] == interface);
                }
            }
        }
    }
}

} // verus!
