//! Host-side core of a just-in-time compiled DSP unit: the voice mode it is
//! loaded with, the tree of its controls, its transport clock and its build
//! cache.

pub mod builder;
pub mod cache;
pub mod clock;
pub mod declaration;
pub mod hints;
pub mod layout;
pub mod load_mode;
pub mod metadata;
pub mod persist;
pub mod runtime;
pub mod text;
pub mod widgets;
pub mod zone;

pub use builder::{BuildError, DspWidgetsBuilder};
pub use cache::{Cache, CacheId, CacheQueryResult, CacheWriter, WriterAction};
pub use clock::{ClockData, MidiSyncMsg, SyncEvent, Transport};
pub use declaration::Declaration;
pub use layout::{
    BoolParamLayout, BoxLayout, NumDisplayLayout, NumParamLayout, WidgetDecl, WidgetDeclType,
};
pub use load_mode::{DspLoadMode, DspType};
pub use metadata::{
    MenuEntry, MetadataElem, NumDisplayStyle, NumMetadata, NumParamStyle, WidgetScale, WidgetStyle,
};
pub use persist::{
    export_zones, import_zones, paths_are_distinct, ImportError, StoredValue, ZoneValue,
};
pub use runtime::DspInfo;
pub use widgets::DspWidget;
pub use zone::{LocalZone, Zone};
