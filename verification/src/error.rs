use vstd::prelude::*;

verus! {

/// What a widget operation can fail with.
#[derive(Clone, Copy, Debug, PartialEq, Eq, Structural)]
pub enum EngineError {
    /// A refresh met a drawn widget without a slot: the tree was not rebuilt
    /// after it was built or edited.
    WidgetIndexMissing,
    /// A texture, named by its identifier, was given to a widget that shows none.
    TexturelessWidget(u32),
    /// A single-slot operation was asked of a composite widget.
    WidgetNotPrimitive,
}

} // verus!
