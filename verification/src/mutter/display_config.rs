//! The monitors, as Mutter's monitor configuration reports them.

use vstd::prelude::*;

use crate::mutter::error::{gnome_result, MutterError, MutterErrorView};
use crate::text::{cat, dec, dec_of, lemma_texts_push, opt_text, same, texts};
use crate::types::{
    lemma_views_push, views, DesktopEnvironment, IdView, MonitorId, MonitorInfo,
    MonitorView, Rect,
};

verus! {

/// How a monitor configuration is to be applied.
#[derive(Clone, Copy, Debug, PartialEq, Eq, Structural)]
pub enum ApplyMethod {
    /// Check it only.
    Verify,
    /// Apply it for this session.
    Temporary,
    /// Apply it for good.
    Persistent,
}

impl ApplyMethod {
    /// The number that stands for the method on the bus.
    pub open spec fn code(self) -> u32 {
        match self {
            ApplyMethod::Verify => 0,
            ApplyMethod::Temporary => 1,
            ApplyMethod::Persistent => 2,
        }
    }

    /// The number that stands for the method on the bus.
    pub fn as_u32(&self) -> (r: u32)
        ensures
            r == self.code(),
    {
        match self {
            ApplyMethod::Verify => 0,
            ApplyMethod::Temporary => 1,
            ApplyMethod::Persistent => 2,
        }
    }
}

/// A value from the message bus. A fraction is kept as its decimal text; values
/// wrapped in variants stand unwrapped.
#[derive(Debug)]
pub enum BusValue {
    Text(String),
    Int(i32),
    Uint(u32),
    Bool(bool),
    Fraction(String),
    Struct(Vec<BusValue>),
    Array(Vec<BusValue>),
    Dict(Vec<(BusValue, BusValue)>),
    Other,
}

impl BusValue {
    /// The text, or the empty one.
    pub open spec fn text(self) -> Seq<char> {
        match self {
            BusValue::Text(s) => s@,
            _ => Seq::empty(),
        }
    }

    /// The integer, or zero.
    pub open spec fn signed(self) -> i32 {
        match self {
            BusValue::Int(i) => i,
            _ => 0,
        }
    }

    /// The unsigned integer, or zero.
    pub open spec fn unsigned(self) -> u32 {
        match self {
            BusValue::Uint(u) => u,
            _ => 0,
        }
    }

    /// Whether this is the truth value true.
    pub open spec fn holds(self) -> bool {
        self == BusValue::Bool(true)
    }

    /// The text of the fraction, if this is one.
    pub open spec fn fraction(self) -> Option<Seq<char>> {
        match self {
            BusValue::Fraction(t) => Some(t@),
            _ => None,
        }
    }

    /// The fields of a structure with at least six of them.
    pub open spec fn record(self) -> Option<Seq<BusValue>> {
        match self {
            BusValue::Struct(f) => if f@.len() >= 6 {
                Some(f@)
            } else {
                None
            },
            _ => None,
        }
    }

    /// The items of an array; anything else has none.
    pub open spec fn list(self) -> Seq<BusValue> {
        match self {
            BusValue::Array(a) => a@,
            _ => Seq::empty(),
        }
    }

    /// Whether the dictionary marks a mode as the current one.
    pub open spec fn is_current(self) -> bool {
        match self {
            BusValue::Dict(d) => exists|i: int|
                0 <= i < d@.len() && (#[trigger] d@[i]).0.text() == "is-current"@ && d@[i].0 is Text
                    && d@[i].1.holds(),
            _ => false,
        }
    }

    fn to_text(&self) -> (r: String)
        ensures
            r@ == self.text(),
    {
        match self {
            BusValue::Text(s) => s.clone(),
            _ => String::new(),
        }
    }

    fn to_signed(&self) -> (r: i32)
        ensures
            r == self.signed(),
    {
        match self {
            BusValue::Int(i) => *i,
            _ => 0,
        }
    }

    fn to_unsigned(&self) -> (r: u32)
        ensures
            r == self.unsigned(),
    {
        match self {
            BusValue::Uint(u) => *u,
            _ => 0,
        }
    }

    fn to_bool(&self) -> (r: bool)
        ensures
            r == self.holds(),
    {
        match self {
            BusValue::Bool(b) => *b,
            _ => false,
        }
    }

    fn to_fraction(&self) -> (r: Option<String>)
        ensures
            opt_text(r) == self.fraction(),
    {
        match self {
            BusValue::Fraction(t) => Some(t.clone()),
            _ => None,
        }
    }

    fn marks_current(&self) -> (r: bool)
        ensures
            r == self.is_current(),
    {
        match self {
            BusValue::Dict(d) => {
                let mut i: usize = 0;
                while i < d.len()
                    invariant
                        i <= d.len(),
                        *self == BusValue::Dict(*d),
                        forall|j: int|
                            0 <= j < i ==> !((#[trigger] d@[j]).0 is Text && d@[j].0.text()
                                == "is-current"@ && d@[j].1.holds()),
                    decreases d.len() - i,
                {
                    if let BusValue::Text(k) = &d[i].0 {
                        if same(k.as_str(), "is-current") && d[i].1.to_bool() {
                            assert(d@[i as int].0.text() == "is-current"@);
                            return true;
                        }
                    }
                    i = i + 1;
                }
                false
            },
            _ => false,
        }
    }
}

/// A mode that a monitor can run in. The refresh rate is kept as its decimal
/// text; `None` where none was reported.
#[derive(Debug)]
pub struct MonitorMode {
    pub id: String,
    pub width: i32,
    pub height: i32,
    pub refresh: Option<String>,
}

/// What is known of a mode.
#[verifier::ext_equal]
pub struct ModeView {
    pub id: Seq<char>,
    pub width: i32,
    pub height: i32,
    pub refresh: Option<Seq<char>>,
}

impl View for MonitorMode {
    type V = ModeView;

    open spec fn view(&self) -> ModeView {
        ModeView {
            id: self.id@,
            width: self.width,
            height: self.height,
            refresh: opt_text(self.refresh),
        }
    }
}

/// A monitor as hardware.
#[derive(Debug)]
pub struct PhysicalMonitor {
    pub connector: String,
    pub vendor: String,
    pub product: String,
    pub serial: String,
    pub modes: Vec<MonitorMode>,
    /// The identifier of the mode that it runs in.
    pub current_mode: Option<String>,
}

/// What is known of a monitor as hardware.
#[verifier::ext_equal]
pub struct PhysicalView {
    pub connector: Seq<char>,
    pub vendor: Seq<char>,
    pub product: Seq<char>,
    pub serial: Seq<char>,
    pub modes: Seq<ModeView>,
    pub current_mode: Option<Seq<char>>,
}

impl View for PhysicalMonitor {
    type V = PhysicalView;

    open spec fn view(&self) -> PhysicalView {
        PhysicalView {
            connector: self.connector@,
            vendor: self.vendor@,
            product: self.product@,
            serial: self.serial@,
            modes: views(self.modes@),
            current_mode: opt_text(self.current_mode),
        }
    }
}

/// A region of the desktop, shown by one or more monitors. The scale factor is
/// kept as its decimal text; `None` stands for the neutral factor.
#[derive(Debug)]
pub struct LogicalMonitor {
    pub x: i32,
    pub y: i32,
    pub scale: Option<String>,
    pub transform: u32,
    pub primary: bool,
    pub connectors: Vec<String>,
}

/// What is known of a region of the desktop.
#[verifier::ext_equal]
pub struct LogicalView {
    pub x: i32,
    pub y: i32,
    pub scale: Option<Seq<char>>,
    pub transform: u32,
    pub primary: bool,
    pub connectors: Seq<Seq<char>>,
}

impl View for LogicalMonitor {
    type V = LogicalView;

    open spec fn view(&self) -> LogicalView {
        LogicalView {
            x: self.x,
            y: self.y,
            scale: opt_text(self.scale),
            transform: self.transform,
            primary: self.primary,
            connectors: texts(self.connectors@),
        }
    }
}

/// The whole layout at one moment.
#[derive(Debug)]
pub struct MonitorLayout {
    /// The number of this layout; applying a configuration refers to it.
    pub serial: u32,
    pub monitors: Vec<PhysicalMonitor>,
    pub logical_monitors: Vec<LogicalMonitor>,
}

/// What is known of a layout.
#[verifier::ext_equal]
pub struct LayoutView {
    pub serial: u32,
    pub monitors: Seq<PhysicalView>,
    pub logical_monitors: Seq<LogicalView>,
}

impl View for MonitorLayout {
    type V = LayoutView;

    open spec fn view(&self) -> LayoutView {
        LayoutView {
            serial: self.serial,
            monitors: views(self.monitors@),
            logical_monitors: views(self.logical_monitors@),
        }
    }
}

impl Default for MonitorLayout {
    fn default() -> (r: MonitorLayout)
        ensures
            r.serial == 0,
            r.monitors@.len() == 0,
            r.logical_monitors@.len() == 0,
    {
        MonitorLayout { serial: 0, monitors: Vec::new(), logical_monitors: Vec::new() }
    }
}

/// The size of the first mode called `id`.
pub open spec fn mode_size(modes: Seq<ModeView>, id: Seq<char>) -> Option<(i32, i32)>
    decreases modes.len(),
{
    if modes.len() == 0 {
        None
    } else if modes[0].id == id {
        Some((modes[0].width, modes[0].height))
    } else {
        mode_size(modes.skip(1), id)
    }
}

impl PhysicalView {
    /// The size of the mode that the monitor runs in, where that mode is known.
    pub open spec fn active_size(self) -> Option<(i32, i32)> {
        match self.current_mode {
            Some(id) => mode_size(self.modes, id),
            None => None,
        }
    }
}

impl PhysicalMonitor {
    /// The size of the mode that the monitor runs in, where that mode is known.
    pub fn active_mode_size(&self) -> (r: Option<(i32, i32)>)
        ensures
            r == self@.active_size(),
    {
        let id = match &self.current_mode {
            Some(id) => id.as_str(),
            None => return None,
        };
        let ghost all = views(self.modes@);
        let mut i: usize = 0;
        assert(all.skip(0) =~= all);
        while i < self.modes.len()
            invariant
                i <= self.modes.len(),
                all == views(self.modes@),
                mode_size(all, id@) == mode_size(all.skip(i as int), id@),
                self@.active_size() == mode_size(all, id@),
            decreases self.modes.len() - i,
        {
            let m = &self.modes[i];
            assert(all[i as int] == m@);
            if same(m.id.as_str(), id) {
                return Some((m.width, m.height));
            }
            assert(all.skip(i as int).skip(1) =~= all.skip(i as int + 1));
            i = i + 1;
        }
        None
    }
}

/// The mode that a value describes.
pub open spec fn mode_in(v: BusValue) -> Option<ModeView> {
    match v.record() {
        Some(f) => Some(
            ModeView {
                id: f[0].text(),
                width: f[1].signed(),
                height: f[2].signed(),
                refresh: f[3].fraction(),
            },
        ),
        None => None,
    }
}

/// The modes that a list describes; items of another shape are passed over.
pub open spec fn modes_in(items: Seq<BusValue>) -> Seq<ModeView>
    decreases items.len(),
{
    if items.len() == 0 {
        Seq::empty()
    } else {
        let front = modes_in(items.drop_last());
        match mode_in(items.last()) {
            Some(m) => front.push(m),
            None => front,
        }
    }
}

/// Whether the properties of a mode mark it as the current one. They follow the
/// scales that the mode supports, or stand in their place where those are left
/// out.
pub open spec fn marked(f: Seq<BusValue>) -> bool {
    f[5].is_current() || (f.len() > 6 && f[6].is_current())
}

/// The identifier of the first mode that is marked as the current one.
pub open spec fn marked_mode(items: Seq<BusValue>) -> Option<Seq<char>>
    decreases items.len(),
{
    if items.len() == 0 {
        None
    } else {
        match marked_mode(items.drop_last()) {
            Some(id) => Some(id),
            None => match items.last().record() {
                Some(f) => if marked(f) {
                    Some(f[0].text())
                } else {
                    None
                },
                None => None,
            },
        }
    }
}

/// The identifier of the current mode: the marked one, or else the first.
pub open spec fn current_mode(items: Seq<BusValue>) -> Option<Seq<char>> {
    match marked_mode(items) {
        Some(id) => Some(id),
        None => if modes_in(items).len() > 0 {
            Some(modes_in(items)[0].id)
        } else {
            None
        },
    }
}

/// The names and the modes in the description of a monitor. The four names stand
/// in a structure of their own, or are the first fields of the description.
pub open spec fn monitor_parts(v: BusValue) -> Option<(Seq<BusValue>, Seq<BusValue>)> {
    match v {
        BusValue::Struct(f) => if f@.len() >= 6 {
            Some((f@, f@[4].list()))
        } else if f@.len() >= 3 {
            match f@[0] {
                BusValue::Struct(n) => if n@.len() >= 4 {
                    Some((n@, f@[1].list()))
                } else {
                    None
                },
                _ => None,
            }
        } else {
            None
        },
        _ => None,
    }
}

/// The monitor that a value describes.
pub open spec fn physical_in(v: BusValue) -> Option<PhysicalView> {
    match monitor_parts(v) {
        Some((n, items)) => Some(
            PhysicalView {
                connector: n[0].text(),
                vendor: n[1].text(),
                product: n[2].text(),
                serial: n[3].text(),
                modes: modes_in(items),
                current_mode: current_mode(items),
            },
        ),
        None => None,
    }
}

/// The monitors that a list describes; items of another shape are passed over.
pub open spec fn physicals_in(items: Seq<BusValue>) -> Seq<PhysicalView>
    decreases items.len(),
{
    if items.len() == 0 {
        Seq::empty()
    } else {
        let front = physicals_in(items.drop_last());
        match physical_in(items.last()) {
            Some(m) => front.push(m),
            None => front,
        }
    }
}

/// The connectors that a list names: the first field of each structure that has
/// fields.
pub open spec fn connectors_in(items: Seq<BusValue>) -> Seq<Seq<char>>
    decreases items.len(),
{
    if items.len() == 0 {
        Seq::empty()
    } else {
        let front = connectors_in(items.drop_last());
        match items.last() {
            BusValue::Struct(f) => if f@.len() > 0 {
                front.push(f@[0].text())
            } else {
                front
            },
            _ => front,
        }
    }
}

/// The region that a value describes.
pub open spec fn logical_in(v: BusValue) -> Option<LogicalView> {
    match v.record() {
        Some(f) => Some(
            LogicalView {
                x: f[0].signed(),
                y: f[1].signed(),
                scale: f[2].fraction(),
                transform: f[3].unsigned(),
                primary: f[4].holds(),
                connectors: connectors_in(f[5].list()),
            },
        ),
        None => None,
    }
}

/// The regions that a list describes; items of another shape are passed over.
pub open spec fn logicals_in(items: Seq<BusValue>) -> Seq<LogicalView>
    decreases items.len(),
{
    if items.len() == 0 {
        Seq::empty()
    } else {
        let front = logicals_in(items.drop_last());
        match logical_in(items.last()) {
            Some(m) => front.push(m),
            None => front,
        }
    }
}

fn read_mode(f: &Vec<BusValue>) -> (r: MonitorMode)
    requires
        f@.len() >= 6,
    ensures
        r@ == (ModeView {
            id: f@[0].text(),
            width: f@[1].signed(),
            height: f@[2].signed(),
            refresh: f@[3].fraction(),
        }),
{
    MonitorMode {
        id: f[0].to_text(),
        width: f[1].to_signed(),
        height: f[2].to_signed(),
        refresh: f[3].to_fraction(),
    }
}

fn read_modes(items: &Vec<BusValue>) -> (r: (Vec<MonitorMode>, Option<String>))
    ensures
        views(r.0@) == modes_in(items@),
        opt_text(r.1) == marked_mode(items@),
{
    broadcast use lemma_views_push;

    let mut modes: Vec<MonitorMode> = Vec::new();
    let mut current: Option<String> = None;
    let mut i: usize = 0;
    assert(views(modes@) =~= Seq::<ModeView>::empty());
    while i < items.len()
        invariant
            i <= items.len(),
            views(modes@) == modes_in(items@.take(i as int)),
            opt_text(current) == marked_mode(items@.take(i as int)),
        decreases items.len() - i,
    {
        let ghost now = items@.take(i as int + 1);
        assert(now.drop_last() =~= items@.take(i as int));
        if let BusValue::Struct(f) = &items[i] {
            if f.len() >= 6 {
                if current.is_none() && (f[5].marks_current() || (f.len() > 6
                    && f[6].marks_current())) {
                    current = Some(f[0].to_text());
                }
                modes.push(read_mode(f));
            }
        }
        i = i + 1;
    }
    assert(items@.take(i as int) =~= items@);
    (modes, current)
}

fn read_physical(n: &Vec<BusValue>, listed: &BusValue) -> (r: PhysicalMonitor)
    requires
        n@.len() >= 4,
    ensures
        r@ == (PhysicalView {
            connector: n@[0].text(),
            vendor: n@[1].text(),
            product: n@[2].text(),
            serial: n@[3].text(),
            modes: modes_in(listed.list()),
            current_mode: current_mode(listed.list()),
        }),
{
    let none: Vec<BusValue> = Vec::new();
    let items = match listed {
        BusValue::Array(a) => a,
        _ => &none,
    };
    assert(items@ =~= listed.list());
    let (modes, marked) = read_modes(items);
    let current_mode = match marked {
        Some(id) => Some(id),
        None => if modes.len() > 0 {
            assert(views(modes@)[0] == modes@[0]@);
            Some(modes[0].id.clone())
        } else {
            None
        },
    };
    PhysicalMonitor {
        connector: n[0].to_text(),
        vendor: n[1].to_text(),
        product: n[2].to_text(),
        serial: n[3].to_text(),
        modes,
        current_mode,
    }
}

fn read_physicals(items: &Vec<BusValue>) -> (r: Vec<PhysicalMonitor>)
    ensures
        views(r@) == physicals_in(items@),
{
    broadcast use lemma_views_push;

    let mut out: Vec<PhysicalMonitor> = Vec::new();
    let mut i: usize = 0;
    assert(views(out@) =~= Seq::<PhysicalView>::empty());
    while i < items.len()
        invariant
            i <= items.len(),
            views(out@) == physicals_in(items@.take(i as int)),
        decreases items.len() - i,
    {
        let ghost now = items@.take(i as int + 1);
        assert(now.drop_last() =~= items@.take(i as int));
        if let BusValue::Struct(f) = &items[i] {
            if f.len() >= 6 {
                out.push(read_physical(f, &f[4]));
            } else if f.len() >= 3 {
                if let BusValue::Struct(n) = &f[0] {
                    if n.len() >= 4 {
                        out.push(read_physical(n, &f[1]));
                    }
                }
            }
        }
        i = i + 1;
    }
    assert(items@.take(i as int) =~= items@);
    out
}

fn read_connectors(items: &Vec<BusValue>) -> (r: Vec<String>)
    ensures
        texts(r@) == connectors_in(items@),
{
    broadcast use lemma_texts_push;

    let mut out: Vec<String> = Vec::new();
    let mut i: usize = 0;
    assert(texts(out@) =~= Seq::<Seq<char>>::empty());
    while i < items.len()
        invariant
            i <= items.len(),
            texts(out@) == connectors_in(items@.take(i as int)),
        decreases items.len() - i,
    {
        let ghost now = items@.take(i as int + 1);
        assert(now.drop_last() =~= items@.take(i as int));
        if let BusValue::Struct(f) = &items[i] {
            if f.len() > 0 {
                out.push(f[0].to_text());
            }
        }
        i = i + 1;
    }
    assert(items@.take(i as int) =~= items@);
    out
}

fn read_logical(f: &Vec<BusValue>) -> (r: LogicalMonitor)
    requires
        f@.len() >= 6,
    ensures
        Some(r@) == logical_in(BusValue::Struct(*f)),
{
    let none: Vec<BusValue> = Vec::new();
    let items = match &f[5] {
        BusValue::Array(a) => a,
        _ => &none,
    };
    assert(items@ =~= f@[5].list());
    LogicalMonitor {
        x: f[0].to_signed(),
        y: f[1].to_signed(),
        scale: f[2].to_fraction(),
        transform: f[3].to_unsigned(),
        primary: f[4].to_bool(),
        connectors: read_connectors(items),
    }
}

fn read_logicals(items: &Vec<BusValue>) -> (r: Vec<LogicalMonitor>)
    ensures
        views(r@) == logicals_in(items@),
{
    broadcast use lemma_views_push;

    let mut out: Vec<LogicalMonitor> = Vec::new();
    let mut i: usize = 0;
    assert(views(out@) =~= Seq::<LogicalView>::empty());
    while i < items.len()
        invariant
            i <= items.len(),
            views(out@) == logicals_in(items@.take(i as int)),
        decreases items.len() - i,
    {
        let ghost now = items@.take(i as int + 1);
        assert(now.drop_last() =~= items@.take(i as int));
        if let BusValue::Struct(f) = &items[i] {
            if f.len() >= 6 {
                out.push(read_logical(f));
            }
        }
        i = i + 1;
    }
    assert(items@.take(i as int) =~= items@);
    out
}

/// What asking for the current state gave.
pub enum StateReply {
    /// The monitor configuration is not on the bus.
    Unreachable(String),
    /// The call failed.
    Failed(String),
    /// The layout's number, the monitors and the regions.
    State(u32, Vec<BusValue>, Vec<BusValue>),
}

/// The layout in a reply, or what went wrong.
pub open spec fn layout_in(reply: StateReply) -> Result<LayoutView, MutterErrorView> {
    match reply {
        StateReply::Unreachable(e) => Err(
            MutterErrorView::DisplayConfig("org.gnome.Mutter.DisplayConfig unreachable: "@ + e@),
        ),
        StateReply::Failed(e) => Err(
            MutterErrorView::DisplayConfig("GetCurrentState failed: "@ + e@),
        ),
        StateReply::State(serial, monitors, regions) => Ok(
            LayoutView {
                serial,
                monitors: physicals_in(monitors@),
                logical_monitors: logicals_in(regions@),
            },
        ),
    }
}

/// The reader of the monitor configuration.
#[derive(Debug)]
pub struct DisplayConfig {}

impl DisplayConfig {
    pub fn new() -> (r: DisplayConfig) {
        DisplayConfig {  }
    }

    /// The layout in a reply, or what went wrong.
    pub fn get_current_state(&self, reply: &StateReply) -> (r: Result<MonitorLayout, MutterError>)
        ensures
            gnome_result(r) == layout_in(*reply),
    {
        match reply {
            StateReply::Unreachable(e) => Err(
                MutterError::DisplayConfig(
                    cat("org.gnome.Mutter.DisplayConfig unreachable: ", e.as_str()),
                ),
            ),
            StateReply::Failed(e) => Err(
                MutterError::DisplayConfig(cat("GetCurrentState failed: ", e.as_str())),
            ),
            StateReply::State(serial, monitors, regions) => Ok(
                MonitorLayout {
                    serial: *serial,
                    monitors: read_physicals(monitors),
                    logical_monitors: read_logicals(regions),
                },
            ),
        }
    }

    /// Whether the monitor configuration answers.
    pub fn probe(&self, reply: &StateReply) -> (r: Result<(), MutterError>)
        ensures
            match r {
                Ok(_) => layout_in(*reply) is Ok,
                Err(e) => layout_in(*reply) == Err::<LayoutView, MutterErrorView>(e@),
            },
    {
        match self.get_current_state(reply) {
            Ok(_) => Ok(()),
            Err(e) => Err(e),
        }
    }

    /// The outcome of applying a configuration.
    pub fn apply_monitors_config(&self, outcome: Result<(), String>) -> (r: Result<
        (),
        MutterError,
    >)
        ensures
            match outcome {
                Ok(_) => r is Ok,
                Err(e) => r matches Err(x) && x@ == MutterErrorView::DisplayConfig(
                    "ApplyMonitorsConfig failed: "@ + e@,
                ),
            },
    {
        match outcome {
            Ok(_) => Ok(()),
            Err(e) => Err(
                MutterError::DisplayConfig(cat("ApplyMonitorsConfig failed: ", e.as_str())),
            ),
        }
    }
}

/// The first monitor at `connector`.
pub open spec fn at_connector(monitors: Seq<PhysicalView>, connector: Seq<char>) -> Option<
    PhysicalView,
>
    decreases monitors.len(),
{
    if monitors.len() == 0 {
        None
    } else if monitors[0].connector == connector {
        Some(monitors[0])
    } else {
        at_connector(monitors.skip(1), connector)
    }
}

/// The size of a region in the pixels of its first monitor; nothing is guessed
/// where that is not known.
pub open spec fn region_size(monitors: Seq<PhysicalView>, region: LogicalView) -> (i32, i32) {
    if region.connectors.len() == 0 {
        (0, 0)
    } else {
        match at_connector(monitors, region.connectors[0]) {
            None => (0, 0),
            Some(m) => match m.active_size() {
                None => (0, 0),
                Some(s) => s,
            },
        }
    }
}

/// The size of a region in the pixels of its first monitor.
pub fn physical_size(monitors: &Vec<PhysicalMonitor>, region: &LogicalMonitor) -> (r: (i32, i32))
    ensures
        r == region_size(views(monitors@), region@),
{
    if region.connectors.len() == 0 {
        return (0, 0);
    }
    let connector = region.connectors[0].as_str();
    assert(region@.connectors[0] == connector@);
    let ghost all = views(monitors@);
    let mut i: usize = 0;
    assert(all.skip(0) =~= all);
    while i < monitors.len()
        invariant
            i <= monitors.len(),
            all == views(monitors@),
            at_connector(all, connector@) == at_connector(all.skip(i as int), connector@),
            region@.connectors.len() > 0,
            region@.connectors[0] == connector@,
        decreases monitors.len() - i,
    {
        let m = &monitors[i];
        assert(all[i as int] == m@);
        if same(m.connector.as_str(), connector) {
            return match m.active_mode_size() {
                Some(s) => s,
                None => (0, 0),
            };
        }
        assert(all.skip(i as int).skip(1) =~= all.skip(i as int + 1));
        i = i + 1;
    }
    (0, 0)
}

/// The sizes of all regions in pixels.
pub open spec fn region_sizes(l: LayoutView) -> Seq<(i32, i32)> {
    Seq::new(l.logical_monitors.len(), |i: int| region_size(l.monitors, l.logical_monitors[i]))
}

/// The sizes of all regions in pixels. Divided by the scale factor of the region
/// and rounded they are what [`list_monitors`] wants.
pub fn physical_sizes(l: &MonitorLayout) -> (r: Vec<(i32, i32)>)
    ensures
        r@ == region_sizes(l@),
{
    let mut out: Vec<(i32, i32)> = Vec::new();
    let mut i: usize = 0;
    while i < l.logical_monitors.len()
        invariant
            i <= l.logical_monitors.len(),
            out@ == region_sizes(l@).take(i as int),
        decreases l.logical_monitors.len() - i,
    {
        assert(l@.logical_monitors[i as int] == l.logical_monitors@[i as int]@);
        out.push(physical_size(&l.monitors, &l.logical_monitors[i]));
        i = i + 1;
        assert(out@ =~= region_sizes(l@).take(i as int));
    }
    assert(region_sizes(l@).take(i as int) =~= region_sizes(l@));
    out
}

/// The name of region number `i`: that of its first connector, if it has one.
pub open spec fn region_id(region: LogicalView, i: nat) -> Seq<char> {
    if region.connectors.len() > 0 {
        region.connectors[0]
    } else {
        "logical-"@ + dec(i)
    }
}

/// The monitor that stands for region number `i`, with its size in scaled pixels.
pub open spec fn monitor_of(l: LayoutView, i: int, scaled: (i32, i32)) -> MonitorView {
    let region = l.logical_monitors[i];
    let size = region_size(l.monitors, region);
    MonitorView {
        id: IdView { native_id: region_id(region, i as nat), de_type: DesktopEnvironment::GNOME },
        name: if region.connectors.len() > 0 {
            region.connectors[0]
        } else {
            Seq::empty()
        },
        geometry: Rect { x: region.x, y: region.y, width: scaled.0, height: scaled.1 },
        physical_geometry: Rect { x: region.x, y: region.y, width: size.0, height: size.1 },
        scale: region.scale,
        is_primary: region.primary,
        workspace_id: None,
    }
}

/// The monitors of a layout, one for each region in its order. `scaled` holds the
/// regions' sizes in scaled pixels.
pub fn list_monitors(l: &MonitorLayout, scaled: &Vec<(i32, i32)>) -> (r: Vec<MonitorInfo>)
    requires
        scaled@.len() == l.logical_monitors@.len(),
    ensures
        views(r@) == Seq::new(
            l@.logical_monitors.len(),
            |i: int| monitor_of(l@, i, scaled@[i]),
        ),
{
    broadcast use lemma_views_push;

    let ghost want = Seq::new(l@.logical_monitors.len(), |i: int| monitor_of(l@, i, scaled@[i]));
    let mut out: Vec<MonitorInfo> = Vec::new();
    let mut i: usize = 0;
    assert(views(out@) =~= want.take(0));
    while i < l.logical_monitors.len()
        invariant
            i <= l.logical_monitors.len(),
            scaled@.len() == l.logical_monitors@.len(),
            want == Seq::new(l@.logical_monitors.len(), |i: int| monitor_of(l@, i, scaled@[i])),
            views(out@) == want.take(i as int),
        decreases l.logical_monitors.len() - i,
    {
        let region = &l.logical_monitors[i];
        assert(l@.logical_monitors[i as int] == region@);
        let size = physical_size(&l.monitors, region);
        let (native_id, name) = if region.connectors.len() > 0 {
            assert(region@.connectors[0] == region.connectors@[0]@);
            (region.connectors[0].clone(), region.connectors[0].clone())
        } else {
            let number = dec_of(i as u64);
            (cat("logical-", number.as_str()), String::new())
        };
        let ghost had = views(out@);
        let m = MonitorInfo {
            id: MonitorId { native_id, de_type: DesktopEnvironment::GNOME },
            name,
            geometry: Rect {
                x: region.x,
                y: region.y,
                width: scaled[i].0,
                height: scaled[i].1,
            },
            physical_geometry: Rect {
                x: region.x,
                y: region.y,
                width: size.0,
                height: size.1,
            },
            scale: match &region.scale {
                Some(t) => Some(t.clone()),
                None => None,
            },
            is_primary: region.primary,
            workspace_id: None,
        };
        assert(m@ == want[i as int]);
        out.push(m);
        assert(views(out@) == had.push(want[i as int]));
        i = i + 1;
        assert(views(out@) =~= want.take(i as int));
    }
    assert(want.take(i as int) =~= want);
    out
}

/// A monitor with modes always has a current one, and it is one of its modes.
pub proof fn law_current_mode_is_a_mode(items: Seq<BusValue>)
    ensures
        modes_in(items).len() > 0 <==> current_mode(items) is Some,
        current_mode(items) matches Some(id) ==> mode_size(modes_in(items), id) is Some,
{
    lemma_marked_is_a_mode(items);
    if marked_mode(items) is None && modes_in(items).len() > 0 {
        lemma_mode_found(modes_in(items), 0);
    }
    if let Some(id) = marked_mode(items) {
        let k = choose|k: int| 0 <= k < modes_in(items).len() && (#[trigger] modes_in(items)[k]).id
            == id;
        lemma_mode_found(modes_in(items), k);
    }
}

proof fn lemma_marked_is_a_mode(items: Seq<BusValue>)
    ensures
        marked_mode(items) matches Some(id) ==> exists|k: int|
            0 <= k < modes_in(items).len() && (#[trigger] modes_in(items)[k]).id == id,
    decreases items.len(),
{
    if items.len() > 0 {
        let front = items.drop_last();
        lemma_marked_is_a_mode(front);
        if let Some(id) = marked_mode(front) {
            let k = choose|k: int|
                0 <= k < modes_in(front).len() && (#[trigger] modes_in(front)[k]).id == id;
            assert(modes_in(items)[k] == modes_in(front)[k]);
        } else if marked_mode(items) is Some {
            let n = modes_in(front).len() as int;
            assert(modes_in(items)[n].id == marked_mode(items)->0);
        }
    }
}

proof fn lemma_mode_found(modes: Seq<ModeView>, k: int)
    requires
        0 <= k < modes.len(),
    ensures
        mode_size(modes, modes[k].id) is Some,
    decreases modes.len(),
{
    if modes[0].id != modes[k].id {
        lemma_mode_found(modes.skip(1), k - 1);
        assert(modes.skip(1)[k - 1] == modes[k]);
    }
}

} // verus!
