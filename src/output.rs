use vstd::prelude::*;
use crate::image::Transforms;

verus! {

/// Subpixel layout of an output.
#[derive(Clone, Copy, Debug, PartialEq, Eq, Structural)]
pub enum Subpixel {
    Unknown,
    /// No subpixel geometry.
    Flat,
    HorizontalRgb,
    HorizontalBgr,
    VerticalRgb,
    VerticalBgr,
}

/// Position, physical size, make, model and orientation of an output.
#[derive(Clone, Debug)]
pub struct Geometry {
    pub x: i32,
    pub y: i32,
    pub physical_width: i32,
    pub physical_height: i32,
    pub subpixel: Subpixel,
    pub make: String,
    pub model: String,
    pub transform: Transforms,
}

/// A video mode of an output; `mode` holds the mode flags (current, preferred).
#[derive(Clone, Copy, Debug)]
pub struct OutputMode {
    pub mode: u32,
    pub width: i32,
    pub height: i32,
    pub refresh: i32,
}

/// What the compositor has told about one output so far.
#[derive(Clone, Debug)]
pub struct Output {
    pub name: Option<String>,
    pub description: Option<String>,
    pub scale: Option<i32>,
    pub mode: Option<OutputMode>,
    pub geometry: Option<Geometry>,
}

/// The events of an output advertisement.
#[derive(Clone, Debug)]
pub enum OutputEvent {
    Geometry(Geometry),
    Mode(OutputMode),
    Scale(i32),
    Name(String),
    Description(String),
    /// Every property of the current output has been sent.
    Done,
}

impl Output {
    pub open spec fn spec_empty() -> Output {
        Output { name: None, description: None, scale: None, mode: None, geometry: None }
    }

    pub fn empty() -> (r: Output)
        ensures
            r == Output::spec_empty(),
    {
        Output { name: None, description: None, scale: None, mode: None, geometry: None }
    }

    /// The record after a property event; `Done` changes no property.
    pub open spec fn apply(self, event: OutputEvent) -> Output {
        match event {
            OutputEvent::Geometry(g) => Output { geometry: Some(g), ..self },
            OutputEvent::Mode(m) => Output { mode: Some(m), ..self },
            OutputEvent::Scale(s) => Output { scale: Some(s), ..self },
            OutputEvent::Name(n) => Output { name: Some(n), ..self },
            OutputEvent::Description(d) => Output { description: Some(d), ..self },
            OutputEvent::Done => self,
        }
    }

    /// The record after a run of property events, in order.
    pub open spec fn apply_all(self, events: Seq<OutputEvent>) -> Output
        decreases events.len(),
    {
        if events.len() == 0 {
            self
        } else {
            self.apply_all(events.drop_last()).apply(events.last())
        }
    }
}

/// Output records in the order they were bound, and how many of them are complete.
/// Property events go to the first incomplete record; its `Done` completes it.
#[derive(Clone, Debug)]
pub struct OutputRecords {
    pub outputs: Vec<Output>,
    pub initialized: usize,
}

/// The mathematical content of `OutputRecords`.
pub struct RecordsView {
    pub outputs: Seq<Output>,
    pub initialized: int,
}

impl RecordsView {
    pub open spec fn wf(self) -> bool {
        0 <= self.initialized <= self.outputs.len()
    }

    pub open spec fn handle(self, event: OutputEvent) -> RecordsView {
        if self.initialized < self.outputs.len() {
            match event {
                OutputEvent::Done => RecordsView { initialized: self.initialized + 1, ..self },
                _ => RecordsView {
                    outputs: self.outputs.update(self.initialized, self.outputs[self.initialized].apply(event)),
                    ..self
                },
            }
        } else {
            self
        }
    }

    pub open spec fn handle_all(self, events: Seq<OutputEvent>) -> RecordsView
        decreases events.len(),
    {
        if events.len() == 0 {
            self
        } else {
            self.handle_all(events.drop_last()).handle(events.last())
        }
    }
}

impl View for OutputRecords {
    type V = RecordsView;

    open spec fn view(&self) -> RecordsView {
        RecordsView { outputs: self.outputs@, initialized: self.initialized as int }
    }
}

impl OutputRecords {
    pub fn new() -> (r: OutputRecords)
        ensures
            r@.outputs.len() == 0,
            r@.initialized == 0,
    {
        OutputRecords { outputs: Vec::new(), initialized: 0 }
    }

    /// Start the record of a newly bound output.
    pub fn bind_output(&mut self)
        ensures
            final(self)@.outputs == old(self)@.outputs.push(Output::spec_empty()),
            final(self)@.initialized == old(self)@.initialized,
    {
        self.outputs.push(Output::empty());
    }

    /// Apply an output event to the first incomplete record; with no incomplete record the
    /// event is dropped.
    pub fn handle_event(&mut self, event: OutputEvent)
        requires
            old(self)@.wf(),
        ensures
            final(self)@ == old(self)@.handle(event),
            final(self)@.wf(),
    {
        let i = self.initialized;
        if i >= self.outputs.len() {
            return;
        }
        match event {
            OutputEvent::Done => {
                self.initialized = i + 1;
            },
            OutputEvent::Geometry(g) => {
                let slot = &mut self.outputs[i];
                slot.geometry = Some(g);
            },
            OutputEvent::Mode(m) => {
                let slot = &mut self.outputs[i];
                slot.mode = Some(m);
            },
            OutputEvent::Scale(s) => {
                let slot = &mut self.outputs[i];
                slot.scale = Some(s);
            },
            OutputEvent::Name(n) => {
                let slot = &mut self.outputs[i];
                slot.name = Some(n);
            },
            OutputEvent::Description(d) => {
                let slot = &mut self.outputs[i];
                slot.description = Some(d);
            },
        }
        proof {
            assert(self@.outputs =~= old(self)@.handle(event).outputs);
        }
    }

    /// How many records are complete.
    pub fn completed(&self) -> (r: usize)
        ensures
            r == self.initialized,
    {
        self.initialized
    }
}

/// The events of one complete advertisement per output, in binding order: each run of
/// property events followed by its `Done`.
pub open spec fn advertisement(runs: Seq<Seq<OutputEvent>>) -> Seq<OutputEvent>
    decreases runs.len(),
{
    if runs.len() == 0 {
        Seq::empty()
    } else {
        advertisement(runs.drop_last()) + runs.last() + seq![OutputEvent::Done]
    }
}

pub open spec fn property_run(run: Seq<OutputEvent>) -> bool {
    forall|j: int| 0 <= j < run.len() ==> !(#[trigger] run[j] is Done)
}

/// The records after `n` outputs were bound and before any event arrived.
pub open spec fn fresh_records(n: nat) -> RecordsView {
    RecordsView { outputs: Seq::new(n, |i: int| Output::spec_empty()), initialized: 0 }
}

/// Handling two runs of events one after the other.
proof fn lemma_handle_all_concat(s: RecordsView, a: Seq<OutputEvent>, b: Seq<OutputEvent>)
    ensures
        s.handle_all(a + b) == s.handle_all(a).handle_all(b),
    decreases b.len(),
{
    if b.len() == 0 {
        assert(a + b =~= a);
    } else {
        assert((a + b).drop_last() =~= a + b.drop_last());
        assert((a + b).last() == b.last());
        lemma_handle_all_concat(s, a, b.drop_last());
    }
}

/// A run of property events fills the first incomplete record and completes nothing.
proof fn lemma_property_run(s: RecordsView, run: Seq<OutputEvent>)
    requires
        0 <= s.initialized < s.outputs.len(),
        property_run(run),
    ensures
        s.handle_all(run) == (RecordsView {
            outputs: s.outputs.update(s.initialized, s.outputs[s.initialized].apply_all(run)),
            initialized: s.initialized,
        }),
    decreases run.len(),
{
    if run.len() == 0 {
        assert(s.outputs.update(s.initialized, s.outputs[s.initialized]) =~= s.outputs);
    } else {
        let shorter = run.drop_last();
        assert(property_run(shorter)) by {
            assert forall|j: int| 0 <= j < shorter.len() implies !(#[trigger] shorter[j] is Done) by {
                assert(shorter[j] == run[j]);
            }
        }
        assert(!(run[run.len() - 1] is Done));
        lemma_property_run(s, shorter);
        let mid = s.handle_all(shorter);
        assert(mid.handle(run.last()).outputs =~= s.outputs.update(
            s.initialized,
            s.outputs[s.initialized].apply_all(run),
        ));
    }
}

/// After the first `runs.len()` of `n` bound outputs were advertised, those records are
/// complete and hold their runs; the rest are still empty.
proof fn lemma_advertised_prefix(n: nat, runs: Seq<Seq<OutputEvent>>)
    requires
        runs.len() <= n,
        forall|i: int| 0 <= i < runs.len() ==> property_run(#[trigger] runs[i]),
    ensures
        fresh_records(n).handle_all(advertisement(runs)) == (RecordsView {
            outputs: Seq::new(
                n,
                |i: int|
                    if i < runs.len() {
                        Output::spec_empty().apply_all(runs[i])
                    } else {
                        Output::spec_empty()
                    },
            ),
            initialized: runs.len() as int,
        }),
    decreases runs.len(),
{
    if runs.len() == 0 {
        assert(fresh_records(n).outputs =~= Seq::new(
            n,
            |i: int|
                if i < runs.len() {
                    Output::spec_empty().apply_all(runs[i])
                } else {
                    Output::spec_empty()
                },
        ));
    } else {
        let prev = runs.drop_last();
        assert forall|i: int| 0 <= i < prev.len() implies property_run(#[trigger] prev[i]) by {
            assert(prev[i] == runs[i]);
        }
        lemma_advertised_prefix(n, prev);
        let before = fresh_records(n).handle_all(advertisement(prev));
        let run = runs.last();
        assert(property_run(run)) by {
            assert(run == runs[runs.len() - 1]);
        }
        lemma_handle_all_concat(fresh_records(n), advertisement(prev) + run, seq![OutputEvent::Done]);
        lemma_handle_all_concat(fresh_records(n), advertisement(prev), run);
        lemma_property_run(before, run);
        let filled = before.handle_all(run);
        let done = seq![OutputEvent::Done];
        assert(done.drop_last() =~= Seq::<OutputEvent>::empty());
        assert(done.last() == OutputEvent::Done);
        assert(filled.handle_all(done.drop_last()) == filled);
        let after = filled.handle_all(seq![OutputEvent::Done]);
        assert(after == filled.handle(OutputEvent::Done));
        assert(after.outputs =~= Seq::new(
            n,
            |i: int|
                if i < runs.len() {
                    Output::spec_empty().apply_all(runs[i])
                } else {
                    Output::spec_empty()
                },
        )) by {
            assert forall|i: int| 0 <= i < n implies after.outputs[i] == (if i < runs.len() {
                Output::spec_empty().apply_all(runs[i])
            } else {
                Output::spec_empty()
            }) by {
                if i < prev.len() {
                    assert(prev[i] == runs[i]);
                }
            }
        }
    }
}

/// Binding `runs.len()` outputs and then receiving, for each in binding order, its property
/// events followed by `Done`, leaves exactly that many complete records, each holding every
/// property sent before its own `Done`.
pub proof fn lemma_enumeration_complete(runs: Seq<Seq<OutputEvent>>)
    requires
        forall|i: int| 0 <= i < runs.len() ==> property_run(#[trigger] runs[i]),
    ensures
        ({
            let r = fresh_records(runs.len()).handle_all(advertisement(runs));
            &&& r.initialized == runs.len()
            &&& r.outputs.len() == runs.len()
            &&& forall|i: int| 0 <= i < runs.len() ==> #[trigger] r.outputs[i] == Output::spec_empty().apply_all(runs[i])
        }),
{
    lemma_advertised_prefix(runs.len(), runs);
}

/// The value carried by the last event of `run` that `pick` accepts, if any.
pub open spec fn last_sent<T>(run: Seq<OutputEvent>, pick: spec_fn(OutputEvent) -> Option<T>) -> Option<T>
    decreases run.len(),
{
    if run.len() == 0 {
        None
    } else {
        match pick(run.last()) {
            Some(v) => Some(v),
            None => last_sent(run.drop_last(), pick),
        }
    }
}

pub open spec fn geometry_of(e: OutputEvent) -> Option<Geometry> {
    match e {
        OutputEvent::Geometry(g) => Some(g),
        _ => None,
    }
}

pub open spec fn mode_of(e: OutputEvent) -> Option<OutputMode> {
    match e {
        OutputEvent::Mode(m) => Some(m),
        _ => None,
    }
}

pub open spec fn scale_of(e: OutputEvent) -> Option<i32> {
    match e {
        OutputEvent::Scale(s) => Some(s),
        _ => None,
    }
}

pub open spec fn name_of(e: OutputEvent) -> Option<String> {
    match e {
        OutputEvent::Name(n) => Some(n),
        _ => None,
    }
}

pub open spec fn description_of(e: OutputEvent) -> Option<String> {
    match e {
        OutputEvent::Description(d) => Some(d),
        _ => None,
    }
}

/// After a run of events, each property of a fresh record is the value of the last event
/// of its kind in the run, and stays unset when the run has none.
pub proof fn lemma_last_event_wins(run: Seq<OutputEvent>)
    ensures
        ({
            let o = Output::spec_empty().apply_all(run);
            &&& o.geometry == last_sent(run, |e: OutputEvent| geometry_of(e))
            &&& o.mode == last_sent(run, |e: OutputEvent| mode_of(e))
            &&& o.scale == last_sent(run, |e: OutputEvent| scale_of(e))
            &&& o.name == last_sent(run, |e: OutputEvent| name_of(e))
            &&& o.description == last_sent(run, |e: OutputEvent| description_of(e))
        }),
    decreases run.len(),
{
    if run.len() > 0 {
        lemma_last_event_wins(run.drop_last());
    }
}

} // verus!
