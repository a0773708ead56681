//! The raw control declarations that a compiled unit emits, and the layouts
//! that they stand for.

use vstd::prelude::*;

verus! {

/// The type tag of a raw control declaration.
#[derive(Debug, Clone, Copy, PartialEq, Eq, Structural)]
pub enum WidgetDeclType {
    TabBox,
    HorizontalBox,
    VerticalBox,
    CloseBox,
    Button,
    CheckButton,
    HorizontalSlider,
    VerticalSlider,
    NumEntry,
    HorizontalBargraph,
    VerticalBargraph,
}

impl WidgetDeclType {
    /// The tag opens a grouping box.
    pub open spec fn is_box(self) -> bool {
        self is TabBox || self is HorizontalBox || self is VerticalBox
    }

    /// The tag declares a boolean control.
    pub open spec fn is_bool_param(self) -> bool {
        self is Button || self is CheckButton
    }

    /// The tag declares a numeric control.
    pub open spec fn is_num_param(self) -> bool {
        self is HorizontalSlider || self is VerticalSlider || self is NumEntry
    }

    /// The tag declares a numeric readout.
    pub open spec fn is_num_display(self) -> bool {
        self is HorizontalBargraph || self is VerticalBargraph
    }
}

/// A raw control declaration: its type tag, the address of the zone that
/// holds the control's value, and the control's numeric domain. The numbers
/// are IEEE 754 single-precision values, kept as their bit patterns.
#[derive(Debug, Clone, Copy, PartialEq, Eq, Structural)]
pub struct WidgetDecl {
    pub typ: WidgetDeclType,
    pub zone: usize,
    pub init: u32,
    pub min: u32,
    pub max: u32,
    pub step: u32,
}

/// How a grouping box lays out its children.
#[derive(Debug, Clone, Copy, PartialEq, Eq, Structural)]
pub enum BoxLayout {
    /// One child is visible at a time: the one at index `selected`.
    Tab { selected: usize },
    Horizontal,
    Vertical,
}

impl BoxLayout {
    /// The layout that a box tag stands for; a tab box starts on its first
    /// child.
    pub open spec fn of_decl_type(typ: WidgetDeclType) -> BoxLayout {
        match typ {
            WidgetDeclType::HorizontalBox => BoxLayout::Horizontal,
            WidgetDeclType::VerticalBox => BoxLayout::Vertical,
            _ => BoxLayout::Tab { selected: 0 },
        }
    }

    /// Reads the layout of a box from its tag.
    pub fn from_decl_type(typ: WidgetDeclType) -> (layout: BoxLayout)
        requires
            typ.is_box(),
        ensures
            layout == BoxLayout::of_decl_type(typ),
    {
        match typ {
            WidgetDeclType::HorizontalBox => BoxLayout::Horizontal,
            WidgetDeclType::VerticalBox => BoxLayout::Vertical,
            _ => BoxLayout::Tab { selected: 0 },
        }
    }
}

/// How a boolean control is operated.
#[derive(Debug, Clone, Copy, PartialEq, Eq, Structural)]
pub enum BoolParamLayout {
    /// On for as long as it is held down.
    Held,
    Checkbox,
}

impl BoolParamLayout {
    /// The layout that a boolean control's tag stands for.
    pub open spec fn of_decl_type(typ: WidgetDeclType) -> BoolParamLayout {
        match typ {
            WidgetDeclType::Button => BoolParamLayout::Held,
            _ => BoolParamLayout::Checkbox,
        }
    }

    /// Reads the layout of a boolean control from its tag.
    pub fn from_decl_type(typ: WidgetDeclType) -> (layout: BoolParamLayout)
        requires
            typ.is_bool_param(),
        ensures
            layout == BoolParamLayout::of_decl_type(typ),
    {
        match typ {
            WidgetDeclType::Button => BoolParamLayout::Held,
            _ => BoolParamLayout::Checkbox,
        }
    }
}

/// How a numeric control is shown.
#[derive(Debug, Clone, Copy, PartialEq, Eq, Structural)]
pub enum NumParamLayout {
    NumEntry,
    HorizontalSlider,
    VerticalSlider,
}

impl NumParamLayout {
    /// The layout that a numeric control's tag stands for.
    pub open spec fn of_decl_type(typ: WidgetDeclType) -> NumParamLayout {
        match typ {
            WidgetDeclType::NumEntry => NumParamLayout::NumEntry,
            WidgetDeclType::HorizontalSlider => NumParamLayout::HorizontalSlider,
            _ => NumParamLayout::VerticalSlider,
        }
    }

    /// Reads the layout of a numeric control from its tag.
    pub fn from_decl_type(typ: WidgetDeclType) -> (layout: NumParamLayout)
        requires
            typ.is_num_param(),
        ensures
            layout == NumParamLayout::of_decl_type(typ),
    {
        match typ {
            WidgetDeclType::NumEntry => NumParamLayout::NumEntry,
            WidgetDeclType::HorizontalSlider => NumParamLayout::HorizontalSlider,
            _ => NumParamLayout::VerticalSlider,
        }
    }
}

/// How a numeric readout is shown.
#[derive(Debug, Clone, Copy, PartialEq, Eq, Structural)]
pub enum NumDisplayLayout {
    Horizontal,
    Vertical,
}

impl NumDisplayLayout {
    /// The layout that a numeric readout's tag stands for.
    pub open spec fn of_decl_type(typ: WidgetDeclType) -> NumDisplayLayout {
        match typ {
            WidgetDeclType::HorizontalBargraph => NumDisplayLayout::Horizontal,
            _ => NumDisplayLayout::Vertical,
        }
    }

    /// Reads the layout of a numeric readout from its tag.
    pub fn from_decl_type(typ: WidgetDeclType) -> (layout: NumDisplayLayout)
        requires
            typ.is_num_display(),
        ensures
            layout == NumDisplayLayout::of_decl_type(typ),
    {
        match typ {
            WidgetDeclType::HorizontalBargraph => NumDisplayLayout::Horizontal,
            _ => NumDisplayLayout::Vertical,
        }
    }
}

} // verus!
