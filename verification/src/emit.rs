//! From the definition text and the clusters' reports to the listing.

use vstd::prelude::*;
use crate::classify::{
    classification_of, classify, selection_of, ConfigurationError, Reports,
};
use crate::extract::{extract, extraction_of, ParseError, ParseErrorView};
use crate::network::Network;
use crate::render::{artifact_text, render};
use crate::status_report::FeatureStatusReport;

verus! {

/// Why no listing was made.
#[derive(Clone, Debug)]
pub enum EmitError {
    /// The definition text declares an identifier that does not decode.
    Parse(ParseError),
    /// The reports are not one for each cluster.
    Configuration(ConfigurationError),
}

/// The mathematical value of an [`EmitError`].
pub ghost enum EmitErrorView {
    Parse(ParseErrorView),
    Configuration(ConfigurationError),
}

impl View for EmitError {
    type V = EmitErrorView;

    open spec fn view(&self) -> EmitErrorView {
        match self {
            EmitError::Parse(e) => EmitErrorView::Parse(e@),
            EmitError::Configuration(e) => EmitErrorView::Configuration(*e),
        }
    }
}

/// The listing for a version, a definition text and a list of reports, or
/// the reason for which there is none. The definition text is read first,
/// then the reports are looked over; only then are the features sorted.
pub open spec fn emitted(
    version: Seq<char>,
    definition: Seq<char>,
    reports: Seq<(Network, FeatureStatusReport)>,
) -> Result<Seq<char>, EmitErrorView> {
    match extraction_of(definition) {
        Err(e) => Err(EmitErrorView::Parse(e)),
        Ok(features) => match selection_of(reports) {
            Err(e) => Err(EmitErrorView::Configuration(e)),
            Ok(selected) => Ok(artifact_text(version, classification_of(features, selected))),
        },
    }
}

/// Makes the listing of the features that `definition` declares, sorted by
/// the clusters on which `reports` say that they are active, under a banner
/// with `agave_version`. Nothing is made unless the whole can be made.
pub fn emit(
    agave_version: &str,
    definition: &str,
    reports: &[(Network, FeatureStatusReport)],
) -> (r: Result<String, EmitError>)
    ensures
        match r {
            Ok(text) => emitted(agave_version@, definition@, reports@) == Ok::<
                Seq<char>,
                EmitErrorView,
            >(text@),
            Err(e) => emitted(agave_version@, definition@, reports@) == Err::<
                Seq<char>,
                EmitErrorView,
            >(e@),
        },
{
    let agave_features = match extract(definition) {
        Ok(features) => features,
        Err(e) => { return Err(EmitError::Parse(e)); },
    };
    let selected = match Reports::select(reports) {
        Ok(selected) => selected,
        Err(e) => { return Err(EmitError::Configuration(e)); },
    };
    let classification = classify(&agave_features, &selected);
    Ok(render(agave_version, &classification))
}

} // verus!
