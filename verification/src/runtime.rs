//! What the wrapper around a running unit decides: the arguments that the
//! compiler gets, where a factory comes from, how a diagnostic reads, how
//! many audio buffers a block needs, and the order in which the unit's
//! handles are released.

use vstd::prelude::*;
use vstd::string::StringExecFns;
use vstd::utf8::{decode_utf8, valid_utf8};
use crate::cache::{CacheQueryResult, CacheQueryResultView, CacheWriter};
use crate::persist::texts_view;
use crate::text::utf8_text;

verus! {

broadcast use vstd::slice::group_slice_axioms;

/// The sample rate of a unit, and how many audio channels it reads and
/// writes.
#[derive(Debug, Clone, Copy, PartialEq, Eq, Structural)]
pub struct DspInfo {
    pub sample_rate: i32,
    pub num_inputs: i32,
    pub num_outputs: i32,
}

impl DspInfo {
    /// The counts of channels are counts.
    pub open spec fn valid(self) -> bool {
        self.num_inputs >= 0 && self.num_outputs >= 0
    }

    /// The number of buffers that a block needs: the larger of the two
    /// counts of channels.
    pub open spec fn channels(self) -> int {
        if self.num_inputs >= self.num_outputs {
            self.num_inputs as int
        } else {
            self.num_outputs as int
        }
    }

    /// The number of audio buffers that the unit computes on.
    pub fn num_channels(&self) -> (n: usize)
        requires
            self.valid(),
        ensures
            n == self.channels(),
    {
        if self.num_inputs >= self.num_outputs {
            self.num_inputs as usize
        } else {
            self.num_outputs as usize
        }
    }

    /// Tells whether the unit has at most `max` inputs and at most `max`
    /// outputs.
    pub fn fits(&self, max: i32) -> (r: bool)
        ensures
            r == (self.num_inputs <= max && self.num_outputs <= max),
    {
        self.num_inputs <= max && self.num_outputs <= max
    }
}

/// What computing one block touches.
#[derive(Debug, Clone, Copy, PartialEq, Eq, Structural)]
pub struct BlockPlan {
    /// The buffers at the indices below this are overwritten in place; the
    /// others are left as they are.
    pub channels: usize,
    /// The number of samples to compute for each channel.
    pub samples: i32,
}

/// Plans one block from the lengths of the buffers that the host supplies.
/// The host has to supply at least one buffer, and no fewer than the unit
/// computes on, all of the same length.
pub fn plan_block(info: &DspInfo, buffer_lengths: &[usize]) -> (plan: BlockPlan)
    requires
        info.valid(),
        buffer_lengths.len() >= 1,
        buffer_lengths.len() >= info.channels(),
        forall|i: int|
            0 <= i < buffer_lengths.len() ==> #[trigger] buffer_lengths@[i] == buffer_lengths@[0],
        buffer_lengths[0] <= i32::MAX,
    ensures
        plan.channels == info.channels(),
        plan.samples == buffer_lengths[0],
{
    BlockPlan { channels: info.num_channels(), samples: buffer_lengths[0] as i32 }
}

/// The arguments for the compiler: it compiles in place, and it looks for
/// imports in the script's own directory first, then in each of the
/// import directories in order.
pub open spec fn compiler_args_for(script_dir: Seq<char>, import_dirs: Seq<Seq<char>>) -> Seq<
    Seq<char>,
>
    decreases import_dirs.len(),
{
    if import_dirs.len() == 0 {
        seq!["--in-place"@, "-I"@, script_dir]
    } else {
        compiler_args_for(script_dir, import_dirs.drop_last()) + seq!["-I"@, import_dirs.last()]
    }
}

/// Lists the arguments for the compiler.
pub fn compiler_args(script_dir: &str, import_dirs: &Vec<String>) -> (args: Vec<String>)
    ensures
        texts_view(args@) == compiler_args_for(script_dir@, texts_view(import_dirs@)),
{
    let mut args: Vec<String> = Vec::new();
    args.push(String::from_str("--in-place"));
    args.push(String::from_str("-I"));
    args.push(String::from_str(script_dir));
    let ghost dirs = texts_view(import_dirs@);
    proof {
        assert(dirs.subrange(0, 0) =~= Seq::<Seq<char>>::empty());
        assert(texts_view(args@) =~= compiler_args_for(script_dir@, dirs.subrange(0, 0)));
    }
    let mut i: usize = 0;
    while i < import_dirs.len()
        invariant
            i <= import_dirs.len(),
            dirs == texts_view(import_dirs@),
            texts_view(args@) == compiler_args_for(script_dir@, dirs.subrange(0, i as int)),
        decreases import_dirs.len() - i,
    {
        let ghost before = texts_view(args@);
        args.push(String::from_str("-I"));
        args.push(import_dirs[i].clone());
        proof {
            assert(dirs.subrange(0, i + 1).drop_last() =~= dirs.subrange(0, i as int));
            assert(texts_view(args@) =~= before + seq!["-I"@, dirs[i as int]]);
        }
        i += 1;
    }
    assert(dirs.subrange(0, import_dirs.len() as int) =~= dirs);
    args
}

/// Where the factory of a unit comes from.
#[derive(Debug)]
pub enum FactorySource {
    /// From the compiler, and it is not kept.
    Compile,
    /// From the entry of the cache in this directory.
    ReadFrom(String),
    /// From the compiler, and it is then written to the cache.
    CompileAndStore(CacheWriter),
}

/// `FactorySource` in spec terms.
pub enum FactorySourceView {
    Compile,
    ReadFrom(Seq<char>),
    CompileAndStore { temp_dir: Seq<char>, final_dir: Seq<char> },
}

impl View for FactorySource {
    type V = FactorySourceView;

    open spec fn view(&self) -> FactorySourceView {
        match self {
            FactorySource::Compile => FactorySourceView::Compile,
            FactorySource::ReadFrom(dir) => FactorySourceView::ReadFrom(dir@),
            FactorySource::CompileAndStore(writer) => FactorySourceView::CompileAndStore {
                temp_dir: writer.temp_name(),
                final_dir: writer.final_name(),
            },
        }
    }
}

/// Picks the source of a factory from the answer of the cache, where there
/// is a cache: a hit is read, a miss is compiled and stored.
pub fn factory_source(answer: Option<CacheQueryResult>) -> (source: FactorySource)
    ensures
        source@ == match answer {
            None => FactorySourceView::Compile,
            Some(res) => match res@ {
                CacheQueryResultView::Hit(dir) => FactorySourceView::ReadFrom(dir),
                CacheQueryResultView::Miss { temp_dir, final_dir } => {
                    FactorySourceView::CompileAndStore { temp_dir, final_dir }
                },
            },
        },
{
    match answer {
        None => FactorySource::Compile,
        Some(CacheQueryResult::Hit(dir)) => FactorySource::ReadFrom(dir),
        Some(CacheQueryResult::Miss(writer)) => FactorySource::CompileAndStore(writer),
    }
}

/// The index of the first zero byte, or the length where there is none.
pub open spec fn first_zero(bytes: Seq<u8>) -> int
    decreases bytes.len(),
{
    if bytes.len() == 0 || bytes[0] == 0 {
        0
    } else {
        1 + first_zero(bytes.drop_first())
    }
}

/// The bytes of the message that a buffer holds: those before the first
/// zero byte, or all of them where the message fills the buffer.
pub open spec fn message_bytes(buffer: Seq<u8>) -> Seq<u8> {
    buffer.subrange(0, first_zero(buffer))
}

/// The index found by going through the bytes from the left is that of
/// the first zero.
proof fn lemma_first_zero(bytes: Seq<u8>, i: int)
    requires
        0 <= i <= bytes.len(),
        forall|k: int| 0 <= k < i ==> bytes[k] != 0,
        i < bytes.len() ==> bytes[i] == 0,
    ensures
        first_zero(bytes) == i,
    decreases i,
{
    if i > 0 {
        let rest = bytes.drop_first();
        assert forall|k: int| 0 <= k < i - 1 implies rest[k] != 0 by {
            assert(rest[k] == bytes[k + 1]);
        }
        lemma_first_zero(rest, i - 1);
    }
}

/// Reads the diagnostic that the compiler left in `buffer`: the text
/// before the first zero byte, cut at the end of the buffer. There is none
/// where those bytes encode no text.
pub fn read_diagnostic(buffer: &[u8]) -> (message: Option<String>)
    ensures
        message is Some <==> valid_utf8(message_bytes(buffer@)),
        message matches Some(m) ==> m@ == decode_utf8(message_bytes(buffer@)),
{
    let mut end: usize = 0;
    while end < buffer.len() && buffer[end] != 0
        invariant
            end <= buffer.len(),
            forall|k: int| 0 <= k < end ==> buffer[k] != 0,
        decreases buffer.len() - end,
    {
        end += 1;
    }
    proof {
        lemma_first_zero(buffer@, end as int);
    }
    utf8_text(&buffer[0..end])
}

/// How far a wrapper has come. It goes through its stages once, in order:
/// to load another unit is to make another wrapper.
#[derive(Debug, Clone, Copy, PartialEq, Eq, Structural)]
pub enum LoadStage {
    /// It holds nothing.
    Empty,
    /// It holds the factory.
    FactoryBound,
    /// It holds an instance, made from its factory or taken over.
    InstanceBound,
    /// Its widgets are built, and it can compute.
    WidgetsBuilt,
    /// Its handles are released.
    Destroyed,
}

/// A step in the life of a wrapper.
#[derive(Debug, Clone, Copy, PartialEq, Eq, Structural)]
pub enum LoadStep {
    BindFactory,
    BindInstance,
    BuildWidgets,
    Destroy,
}

impl LoadStage {
    /// The place of the stage in the order of stages.
    pub open spec fn rank(self) -> int {
        match self {
            LoadStage::Empty => 0,
            LoadStage::FactoryBound => 1,
            LoadStage::InstanceBound => 2,
            LoadStage::WidgetsBuilt => 3,
            LoadStage::Destroyed => 4,
        }
    }

    /// The stage that a step leads to, if the step can be taken: a factory
    /// is bound first, an instance next or first, the widgets are built
    /// once there is an instance, and a wrapper can be destroyed at any
    /// stage but once.
    pub open spec fn after(self, step: LoadStep) -> Option<LoadStage> {
        match (self, step) {
            (LoadStage::Empty, LoadStep::BindFactory) => Some(LoadStage::FactoryBound),
            (LoadStage::Empty, LoadStep::BindInstance) => Some(LoadStage::InstanceBound),
            (LoadStage::FactoryBound, LoadStep::BindInstance) => Some(LoadStage::InstanceBound),
            (LoadStage::InstanceBound, LoadStep::BuildWidgets) => Some(LoadStage::WidgetsBuilt),
            (LoadStage::Destroyed, LoadStep::Destroy) => None,
            (_, LoadStep::Destroy) => Some(LoadStage::Destroyed),
            _ => None,
        }
    }

    /// Takes a step, if it can be taken at this stage.
    pub fn advance(self, step: LoadStep) -> (next: Option<LoadStage>)
        ensures
            next == self.after(step),
    {
        match (self, step) {
            (LoadStage::Empty, LoadStep::BindFactory) => Some(LoadStage::FactoryBound),
            (LoadStage::Empty, LoadStep::BindInstance) => Some(LoadStage::InstanceBound),
            (LoadStage::FactoryBound, LoadStep::BindInstance) => Some(LoadStage::InstanceBound),
            (LoadStage::InstanceBound, LoadStep::BuildWidgets) => Some(LoadStage::WidgetsBuilt),
            (LoadStage::Destroyed, LoadStep::Destroy) => None,
            (_, LoadStep::Destroy) => Some(LoadStage::Destroyed),
            _ => None,
        }
    }
}

/// The stage reached from `start` by taking the steps in order, if each of
/// them can be taken.
pub open spec fn stage_after(start: LoadStage, steps: Seq<LoadStep>) -> Option<LoadStage>
    decreases steps.len(),
{
    if steps.len() == 0 {
        Some(start)
    } else {
        match stage_after(start, steps.drop_last()) {
            Some(stage) => stage.after(steps.last()),
            None => None,
        }
    }
}

/// No stage is entered twice: every step that is taken leads to a later
/// stage, so a run of steps never comes back to where it started.
pub proof fn lemma_stages_never_return(start: LoadStage, steps: Seq<LoadStep>)
    requires
        steps.len() > 0,
    ensures
        stage_after(start, steps) matches Some(end) ==> end.rank() > start.rank(),
    decreases steps.len(),
{
    if steps.len() > 1 {
        lemma_stages_never_return(start, steps.drop_last());
    } else {
        assert(stage_after(start, steps.drop_last()) == Some(start));
    }
}

/// A handle that a wrapper holds on the unit's side.
#[derive(Debug, Clone, Copy, PartialEq, Eq, Structural)]
pub enum Handle {
    Factory,
    Instance,
    Uis,
}

/// Which handles a wrapper holds. One that was made from a factory that it
/// does not own, or from an instance, holds no factory.
#[derive(Debug, Clone, Copy, PartialEq, Eq, Structural)]
pub struct Handles {
    pub factory: bool,
    pub instance: bool,
    pub uis: bool,
}

/// What a wrapper is made from.
#[derive(Debug, Clone, Copy, PartialEq, Eq, Structural)]
pub enum LoadOrigin {
    /// A script: the wrapper compiles it or reads it from the cache, and
    /// owns the factory.
    File,
    /// A factory made elsewhere, which the wrapper owns or does not.
    PolyFactory { owns_factory: bool },
    /// An instance made elsewhere, which the wrapper takes over.
    Instance,
}

impl Handles {
    /// The handles that a wrapper holds once it is loaded: always the
    /// instance and the interfaces bound to it, and the factory where it
    /// owns one.
    pub open spec fn of_origin(origin: LoadOrigin) -> Handles {
        Handles {
            factory: match origin {
                LoadOrigin::File => true,
                LoadOrigin::PolyFactory { owns_factory } => owns_factory,
                LoadOrigin::Instance => false,
            },
            instance: true,
            uis: true,
        }
    }

    /// The handles of a loaded wrapper.
    pub fn loaded_from(origin: LoadOrigin) -> (handles: Handles)
        ensures
            handles == Handles::of_origin(origin),
    {
        let factory = match origin {
            LoadOrigin::File => true,
            LoadOrigin::PolyFactory { owns_factory } => owns_factory,
            LoadOrigin::Instance => false,
        };
        Handles { factory, instance: true, uis: true }
    }

    /// The handles held, in the order in which they have to be released:
    /// the instance, then the interfaces bound to it, then the factory.
    pub open spec fn release_order_spec(self) -> Seq<Handle> {
        (if self.instance {
            seq![Handle::Instance]
        } else {
            Seq::empty()
        }) + (if self.uis {
            seq![Handle::Uis]
        } else {
            Seq::empty()
        }) + (if self.factory {
            seq![Handle::Factory]
        } else {
            Seq::empty()
        })
    }

    /// No handle, as in a wrapper that has loaded nothing yet.
    pub fn none() -> (handles: Handles)
        ensures
            handles == (Handles { factory: false, instance: false, uis: false }),
    {
        Handles { factory: false, instance: false, uis: false }
    }

    /// Lists the handles to release, in order; this serves a wrapper that is
    /// dropped, and one that gives up halfway through loading.
    pub fn release_order(&self) -> (order: Vec<Handle>)
        ensures
            order@ == self.release_order_spec(),
    {
        let mut order: Vec<Handle> = Vec::new();
        if self.instance {
            order.push(Handle::Instance);
        }
        if self.uis {
            order.push(Handle::Uis);
        }
        if self.factory {
            order.push(Handle::Factory);
        }
        assert(order@ =~= self.release_order_spec());
        order
    }
}

} // verus!
