//! The protocol of a table: the versions and features that a client needs.
use crate::outside::{column_mapping_feature, column_mapping_feature_text};
use vstd::prelude::*;

verus! {

/// The versions and features that a client needs to read and to write a table. The features are
/// sets of feature names; a table has them from reader version 3 and writer version 7 on.
#[derive(Debug, PartialEq, Eq)]
pub struct Protocol {
    pub min_reader_version: i32,
    pub min_writer_version: i32,
    pub reader_features: Option<Vec<String>>,
    pub writer_features: Option<Vec<String>>,
}

/// What a [`Protocol`] holds.
pub struct ProtocolView {
    pub min_reader_version: int,
    pub min_writer_version: int,
    pub reader_features: Option<Seq<Seq<char>>>,
    pub writer_features: Option<Seq<Seq<char>>>,
}

/// The names in a list of features.
pub open spec fn feature_names(features: Seq<String>) -> Seq<Seq<char>> {
    Seq::new(features.len(), |i: int| features[i]@)
}

/// The names in a list of features that may be missing.
pub open spec fn feature_list(features: Option<Vec<String>>) -> Option<Seq<Seq<char>>> {
    match features {
        Some(list) => Some(feature_names(list@)),
        None => None,
    }
}

impl View for Protocol {
    type V = ProtocolView;

    open spec fn view(&self) -> ProtocolView {
        ProtocolView {
            min_reader_version: self.min_reader_version as int,
            min_writer_version: self.min_writer_version as int,
            reader_features: feature_list(self.reader_features),
            writer_features: feature_list(self.writer_features),
        }
    }
}

/// A set of features with column mapping in it. No feature is added twice.
pub open spec fn with_column_mapping_feature(features: Option<Seq<Seq<char>>>) -> Seq<Seq<char>> {
    match features {
        Some(names) => if names.contains(column_mapping_feature_text()) {
            names
        } else {
            names.push(column_mapping_feature_text())
        },
        None => seq![column_mapping_feature_text()],
    }
}

/// Whether a protocol states what it needs by features.
pub open spec fn uses_table_features(protocol: ProtocolView) -> bool {
    protocol.min_reader_version >= 3 || protocol.min_writer_version >= 7
}

/// A protocol that supports column mapping. One with features gets the feature in both sets, and
/// with them the versions that feature sets belong to; one without gets the versions that column
/// mapping came with, where its own are lower.
pub open spec fn with_column_mapping(protocol: ProtocolView) -> ProtocolView {
    if uses_table_features(protocol) {
        ProtocolView {
            min_reader_version: 3,
            min_writer_version: 7,
            reader_features: Some(with_column_mapping_feature(protocol.reader_features)),
            writer_features: Some(with_column_mapping_feature(protocol.writer_features)),
        }
    } else {
        ProtocolView {
            min_reader_version: if protocol.min_reader_version < 2 {
                2
            } else {
                protocol.min_reader_version
            },
            min_writer_version: if protocol.min_writer_version < 5 {
                5
            } else {
                protocol.min_writer_version
            },
            ..protocol
        }
    }
}

/// Adds column mapping to a set of features.
fn add_column_mapping_feature(features: Option<Vec<String>>) -> (r: Vec<String>)
    ensures
        feature_names(r@) == with_column_mapping_feature(feature_list(features)),
{
    let ghost given = feature_list(features);
    let wanted = column_mapping_feature();
    let mut list = match features {
        Some(list) => list,
        None => Vec::new(),
    };
    let ghost names = feature_names(list@);
    let mut i: usize = 0;
    while i < list.len()
        invariant
            i <= list@.len(),
            names == feature_names(list@),
            given == feature_list(features),
            given == Some(names) || (given is None && names.len() == 0),
            wanted@ == column_mapping_feature_text(),
            forall|j: int| 0 <= j < i ==> #[trigger] names[j] != wanted@,
        decreases list@.len() - i,
    {
        if list[i] == wanted {
            assert(names[i as int] == wanted@);
            return list;
        }
        i += 1;
    }
    assert(!names.contains(wanted@));
    list.push(wanted);
    assert(feature_names(list@) =~= names.push(wanted@));
    assert(feature_names(list@) =~= with_column_mapping_feature(given));
    list
}

/// Ensure the protocol supports column mapping.
/// For legacy tables (reader < 3): bumps to reader 2 / writer 5.
/// For table-features tables (reader >= 3 or writer >= 7): adds ColumnMapping to both
/// reader and writer features.
pub fn ensure_column_mapping_protocol(protocol: Protocol) -> (r: Protocol)
    ensures
        r@ == with_column_mapping(protocol@),
{
    if protocol.min_reader_version >= 3 || protocol.min_writer_version >= 7 {
        // Table-features path: add ColumnMapping to both reader and writer features.
        Protocol {
            min_reader_version: 3,
            min_writer_version: 7,
            reader_features: Some(add_column_mapping_feature(protocol.reader_features)),
            writer_features: Some(add_column_mapping_feature(protocol.writer_features)),
        }
    } else {
        // Legacy path: bump to reader 2 / writer 5 (only if currently lower).
        let reader: i32 = if protocol.min_reader_version < 2 {
            2
        } else {
            protocol.min_reader_version
        };
        let writer: i32 = if protocol.min_writer_version < 5 {
            5
        } else {
            protocol.min_writer_version
        };
        Protocol {
            min_reader_version: reader,
            min_writer_version: writer,
            reader_features: protocol.reader_features,
            writer_features: protocol.writer_features,
        }
    }
}

} // verus!
