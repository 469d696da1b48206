use vstd::prelude::*;

verus! {

/// The icons of the application.
#[derive(Clone, Copy, Debug, PartialEq, Eq, Structural)]
pub enum AssetItem {
    AddStep,
    DeleteStep,
    EditStep,
    Export,
    Import,
    ReorderSteps,
    RunStepsChain,
    HaltProcessing,
    FitImage,
    CropImage,
}

impl AssetItem {
    /// The file of the icon among the embedded assets.
    pub fn to_path(&self) -> (r: &'static str)
        ensures
            r == match *self {
                AssetItem::AddStep => "add step.png",
                AssetItem::DeleteStep => "delete step.png",
                AssetItem::EditStep => "edit step.png",
                AssetItem::Export => "export.png",
                AssetItem::Import => "import.png",
                AssetItem::ReorderSteps => "reorder steps.png",
                AssetItem::RunStepsChain => "run step.png",
                AssetItem::HaltProcessing => "stop processing.png",
                AssetItem::FitImage => "stretch.png",
                AssetItem::CropImage => "crop.png",
            },
    {
        match self {
            AssetItem::AddStep => "add step.png",
            AssetItem::DeleteStep => "delete step.png",
            AssetItem::EditStep => "edit step.png",
            AssetItem::Export => "export.png",
            AssetItem::Import => "import.png",
            AssetItem::ReorderSteps => "reorder steps.png",
            AssetItem::RunStepsChain => "run step.png",
            AssetItem::HaltProcessing => "stop processing.png",
            AssetItem::FitImage => "stretch.png",
            AssetItem::CropImage => "crop.png",
        }
    }
}

} // verus!
