//! The record model: one linguistic description as an ordered list of
//! units, each with an optional category attachment above and an optional
//! list of operator attachments below.

use vstd::prelude::*;

verus! {

/// The closed set of category layers. `CoreP` and `ClauseP` are the
/// periphery variants of `Core` and `Clause`.
#[derive(Clone, Copy, Debug, PartialEq, Eq, Hash, Structural)]
pub enum CategoryKind {
    Pred,
    Nuc,
    Core,
    CoreP,
    Clause,
    ClauseP,
    Sentence,
}

impl CategoryKind {
    /// The layer's name, as it is written in the input and in node labels.
    pub open spec fn spec_name(self) -> Seq<char> {
        match self {
            CategoryKind::Pred => "Pred"@,
            CategoryKind::Nuc => "Nuc"@,
            CategoryKind::Core => "Core"@,
            CategoryKind::CoreP => "CoreP"@,
            CategoryKind::Clause => "Clause"@,
            CategoryKind::ClauseP => "ClauseP"@,
            CategoryKind::Sentence => "Sentence"@,
        }
    }

    /// Returns the layer's name.
    pub fn name(&self) -> (r: String)
        ensures
            r@ == self.spec_name(),
    {
        match self {
            CategoryKind::Pred => "Pred".to_owned(),
            CategoryKind::Nuc => "Nuc".to_owned(),
            CategoryKind::Core => "Core".to_owned(),
            CategoryKind::CoreP => "CoreP".to_owned(),
            CategoryKind::Clause => "Clause".to_owned(),
            CategoryKind::ClauseP => "ClauseP".to_owned(),
            CategoryKind::Sentence => "Sentence".to_owned(),
        }
    }

    /// The non-periphery counterpart of a periphery variant.
    pub open spec fn spec_periphery_base(self) -> Option<CategoryKind> {
        match self {
            CategoryKind::CoreP => Some(CategoryKind::Core),
            CategoryKind::ClauseP => Some(CategoryKind::Clause),
            _ => None,
        }
    }

    /// Returns `Some(base)` exactly for the two periphery variants.
    pub fn periphery_base(&self) -> (r: Option<CategoryKind>)
        ensures
            r == self.spec_periphery_base(),
    {
        match self {
            CategoryKind::CoreP => Some(CategoryKind::Core),
            CategoryKind::ClauseP => Some(CategoryKind::Clause),
            _ => None,
        }
    }
}

/// The syntactic category assigned to one unit's upper projection.
#[derive(Clone, Debug, PartialEq)]
pub struct TopAttachment {
    /// The category label, e.g. a part-of-speech tag.
    pub category_label: String,
    /// The layer at which the category attaches.
    pub kind: CategoryKind,
}

/// Spec-level image of a `TopAttachment`.
#[verifier::ext_equal]
pub ghost struct TopAttachmentView {
    pub category_label: Seq<char>,
    pub kind: CategoryKind,
}

impl View for TopAttachment {
    type V = TopAttachmentView;

    open spec fn view(&self) -> TopAttachmentView {
        TopAttachmentView { category_label: self.category_label@, kind: self.kind }
    }
}

/// One grammatical operator scoping the clause at the layer named by `kind`.
#[derive(Clone, Debug, PartialEq)]
pub struct BottomAttachment {
    /// The operator label, e.g. a tense or aspect marker.
    pub operator_label: String,
    /// The layer that the operator scopes.
    pub kind: CategoryKind,
}

/// Spec-level image of a `BottomAttachment`.
#[verifier::ext_equal]
pub ghost struct BottomAttachmentView {
    pub operator_label: Seq<char>,
    pub kind: CategoryKind,
}

impl View for BottomAttachment {
    type V = BottomAttachmentView;

    open spec fn view(&self) -> BottomAttachmentView {
        BottomAttachmentView { operator_label: self.operator_label@, kind: self.kind }
    }
}

/// One terminal unit: its surface form, an optional category attachment
/// above and an optional ordered list of operator attachments below.
#[derive(Clone, Debug, PartialEq)]
pub struct Unit {
    /// The surface form shown at the unit's terminal node.
    pub surface_label: String,
    /// The category attached above the unit, if any.
    pub top: Option<TopAttachment>,
    /// The operators attached below the unit, if any.
    pub bottoms: Option<Vec<BottomAttachment>>,
}

/// Spec-level image of a `Unit`.
#[verifier::ext_equal]
pub ghost struct UnitView {
    pub surface_label: Seq<char>,
    pub top: Option<TopAttachmentView>,
    pub bottoms: Option<Seq<BottomAttachmentView>>,
}

impl View for Unit {
    type V = UnitView;

    open spec fn view(&self) -> UnitView {
        UnitView {
            surface_label: self.surface_label@,
            top: match self.top {
                Some(t) => Some(t@),
                None => None,
            },
            bottoms: match self.bottoms {
                Some(bs) => Some(bs@.map_values(|b: BottomAttachment| b@)),
                None => None,
            },
        }
    }
}

/// The spec-level images of a sequence of units.
pub open spec fn unit_views(us: Seq<Unit>) -> Seq<UnitView> {
    us.map_values(|u: Unit| u@)
}

} // verus!
