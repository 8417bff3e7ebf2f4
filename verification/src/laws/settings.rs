//! What holds of a table's settings and protocol.
use crate::config::{
    is_max_column_id, max_column_id_in, max_column_id_setting, mode_fault, mode_in, mode_of,
    mode_setting, ColumnMappingMode,
};
use crate::error::Fault;
use crate::metadata::ValueView;
use crate::outside::column_mapping_feature_text;
use crate::protocol::{
    uses_table_features, with_column_mapping, with_column_mapping_feature, Protocol, ProtocolView,
};
use crate::schema::FieldView;
use crate::text::{decimal, digit, digits, digits_value, i64_in, is_digit, is_digits, number_in};
use crate::validate::id_of;
use vstd::prelude::*;

verus! {

/// Law: a table that has column mapping keeps it, whatever value its mode setting may be given.
pub proof fn law_column_mapping_is_never_disabled(value: Seq<char>, current: ColumnMappingMode)
    requires
        current != ColumnMappingMode::NoMapping,
        mode_fault(value, current) is None,
    ensures
        mode_of(value) != ColumnMappingMode::NoMapping,
{
    reveal_strlit("none");
    reveal_strlit("name");
    reveal_strlit("id");
}

/// Law: of the values that the mode setting may be given, `name` and `id` are read back as the
/// modes of these names, and `none` as no mapping.
pub proof fn law_accepted_mode_is_read_back(
    config: Map<Seq<char>, Seq<char>>,
    value: Seq<char>,
    current: ColumnMappingMode,
)
    requires
        mode_fault(value, current) is None,
    ensures
        mode_in(config.insert(mode_setting(), value)) == (if value == "name"@ {
            ColumnMappingMode::Name
        } else if value == "id"@ {
            ColumnMappingMode::Id
        } else {
            ColumnMappingMode::NoMapping
        }),
        value == "name"@ || value == "id"@ || value == "none"@,
{
}

/// The digits of a number are digits, and stand for the number.
proof fn lemma_digits(n: nat)
    ensures
        is_digits(digits(n)),
        digits_value(digits(n)) == n,
    decreases n,
{
    let text = digits(n);
    if n < 10 {
        assert(text.drop_last() =~= Seq::<char>::empty());
        assert(digits_value(text.drop_last()) == 0);
        assert(is_digit(digit(n as int)));
    } else {
        lemma_digits(n / 10);
        let d = (n % 10) as int;
        assert(text.drop_last() =~= digits(n / 10));
        assert(is_digit(digit(d)));
        assert forall|i: int| 0 <= i < text.len() implies is_digit(#[trigger] text[i]) by {
            if i < text.len() - 1 {
                assert(text[i] == digits(n / 10)[i]);
            }
        }
    }
}

/// Law: a greatest id written into the settings in decimal is read back as it is.
pub proof fn law_max_column_id_is_read_back(config: Map<Seq<char>, Seq<char>>, id: i64)
    ensures
        max_column_id_in(config.insert(max_column_id_setting(), decimal(id as int))) == id,
{
    let text = decimal(id as int);
    if id < 0 {
        lemma_digits((-id) as nat);
        assert(text.drop_first() =~= digits((-id) as nat));
    } else {
        lemma_digits(id as nat);
        assert(is_digit(text[0]));
    }
    assert(number_in(text) == Some(id as int));
    assert(i64_in(text) == Some(id as int));
}

/// Whether a protocol supports column mapping: by its versions, or by the feature in both sets.
pub open spec fn supports_column_mapping(protocol: ProtocolView) -> bool {
    if uses_table_features(protocol) {
        &&& protocol.reader_features is Some
        &&& protocol.reader_features->0.contains(column_mapping_feature_text())
        &&& protocol.writer_features is Some
        &&& protocol.writer_features->0.contains(column_mapping_feature_text())
    } else {
        protocol.min_reader_version >= 2 && protocol.min_writer_version >= 5
    }
}

/// Adding column mapping keeps the other features.
proof fn lemma_feature_is_added(features: Option<Seq<Seq<char>>>)
    ensures
        with_column_mapping_feature(features).contains(column_mapping_feature_text()),
        features is Some ==> forall|name: Seq<char>| #[trigger]
            features->0.contains(name) ==> with_column_mapping_feature(features).contains(name),
        forall|name: Seq<char>| #[trigger]
            with_column_mapping_feature(features).contains(name) ==> name
                == column_mapping_feature_text() || (features is Some && features->0.contains(
                name,
            )),
        features is Some && features->0.no_duplicates() ==> with_column_mapping_feature(
            features,
        ).no_duplicates(),
        features is None ==> with_column_mapping_feature(features).no_duplicates(),
{
    let feature = column_mapping_feature_text();
    let added = with_column_mapping_feature(features);
    match features {
        Some(names) => {
            if !names.contains(feature) {
                assert(added[names.len() as int] == feature);
                assert forall|name: Seq<char>| #[trigger] names.contains(name) implies
                    added.contains(name) by {
                    let i = choose|i: int| 0 <= i < names.len() && names[i] == name;
                    assert(added[i] == name);
                }
                assert forall|name: Seq<char>| #[trigger] added.contains(name) implies name
                    == feature || names.contains(name) by {
                    let i = choose|i: int| 0 <= i < added.len() && added[i] == name;
                    if i < names.len() {
                        assert(names[i] == name);
                    }
                }
                assert forall|i: int| 0 <= i < names.len() implies #[trigger] added[i]
                    != feature by {
                    assert(names[i] == added[i]);
                    assert(names.contains(added[i]));
                }
            }
        },
        None => {
            assert(added[0] == feature);
        },
    }
}

/// Law: the protocol supports column mapping afterwards.
pub proof fn law_protocol_supports_column_mapping(protocol: ProtocolView)
    ensures
        supports_column_mapping(with_column_mapping(protocol)),
        uses_table_features(with_column_mapping(protocol)) == uses_table_features(protocol),
{
    lemma_feature_is_added(protocol.reader_features);
    lemma_feature_is_added(protocol.writer_features);
}

/// Law: ensuring column mapping a second time changes nothing.
pub proof fn law_ensuring_protocol_twice_is_ensuring_once(protocol: ProtocolView)
    ensures
        with_column_mapping(with_column_mapping(protocol)) == with_column_mapping(protocol),
{
    lemma_feature_is_added(protocol.reader_features);
    lemma_feature_is_added(protocol.writer_features);
}

/// Law: no feature is lost, none but column mapping is added, and none stands twice that did not
/// before.
pub proof fn law_protocol_features_are_kept(protocol: ProtocolView)
    ensures
        features_kept(protocol.reader_features, with_column_mapping(protocol).reader_features),
        features_kept(protocol.writer_features, with_column_mapping(protocol).writer_features),
{
    lemma_feature_is_added(protocol.reader_features);
    lemma_feature_is_added(protocol.writer_features);
}

/// Whether a set of features is the same as before, apart from column mapping.
pub open spec fn features_kept(
    before: Option<Seq<Seq<char>>>,
    after: Option<Seq<Seq<char>>>,
) -> bool {
    &&& before is Some ==> {
        &&& after is Some
        &&& forall|name: Seq<char>| #[trigger]
            before->0.contains(name) ==> after->0.contains(name)
        &&& before->0.no_duplicates() ==> after->0.no_duplicates()
    }
    &&& after is Some ==> forall|name: Seq<char>| #[trigger]
        after->0.contains(name) ==> name == column_mapping_feature_text() || (before is Some
            && before->0.contains(name))
}

/// Law: no version is lowered, for the versions up to those that feature sets came with.
pub proof fn law_protocol_versions_never_fall(protocol: ProtocolView)
    requires
        protocol.min_reader_version <= 3,
        protocol.min_writer_version <= 7,
    ensures
        protocol.min_reader_version <= with_column_mapping(protocol).min_reader_version,
        protocol.min_writer_version <= with_column_mapping(protocol).min_writer_version,
{
}

/// Law: the mode is by name if and only if the setting `delta.columnMapping.mode` is there with the
/// value `name`, by id if and only if it is there with the value `id`, and no mapping otherwise.
pub proof fn law_mode_is_that_of_the_setting(config: Map<Seq<char>, Seq<char>>)
    ensures
        mode_in(config) == ColumnMappingMode::Name <==> config.contains_key(
            "delta.columnMapping.mode"@,
        ) && config["delta.columnMapping.mode"@] == "name"@,
        mode_in(config) == ColumnMappingMode::Id <==> config.contains_key(
            "delta.columnMapping.mode"@,
        ) && config["delta.columnMapping.mode"@] == "id"@,
        !config.contains_key("delta.columnMapping.mode"@) ==> mode_in(config)
            == ColumnMappingMode::NoMapping,
{
    lemma_mode_words_differ();
}

/// The values that the mode setting may be given differ.
proof fn lemma_mode_words_differ()
    ensures
        "name"@ != "id"@,
        "none"@ != "id"@,
        "none"@ != "name"@,
{
    reveal_strlit("none");
    reveal_strlit("name");
    reveal_strlit("id");
    assert("name"@.len() == 4 && "none"@.len() == 4 && "id"@.len() == 2);
    assert("none"@[1] == 'o' && "name"@[1] == 'a');
}

/// Law: settings that agree on `delta.columnMapping.mode` give the same mode, whatever other
/// settings they hold.
pub proof fn law_mode_depends_on_one_setting(
    config: Map<Seq<char>, Seq<char>>,
    other: Map<Seq<char>, Seq<char>>,
)
    requires
        config.contains_key("delta.columnMapping.mode"@) <==> other.contains_key(
            "delta.columnMapping.mode"@,
        ),
        config.contains_key("delta.columnMapping.mode"@) ==> config["delta.columnMapping.mode"@]
            == other["delta.columnMapping.mode"@],
    ensures
        mode_in(config) == mode_in(other),
{
}

/// Law: settings that agree on `delta.columnMapping.maxColumnId` give the same greatest id,
/// whatever other settings they hold.
pub proof fn law_max_column_id_depends_on_one_setting(
    config: Map<Seq<char>, Seq<char>>,
    other: Map<Seq<char>, Seq<char>>,
)
    requires
        config.contains_key("delta.columnMapping.maxColumnId"@) <==> other.contains_key(
            "delta.columnMapping.maxColumnId"@,
        ),
        config.contains_key("delta.columnMapping.maxColumnId"@) ==> config[
            "delta.columnMapping.maxColumnId"@
        ] == other["delta.columnMapping.maxColumnId"@],
    ensures
        max_column_id_in(config) == max_column_id_in(other),
{
}

/// Law: the greatest id is the 64-bit number that the setting `delta.columnMapping.maxColumnId`
/// stands for, and zero where the setting is missing or stands for none.
pub proof fn law_max_column_id_is_that_of_the_setting(config: Map<Seq<char>, Seq<char>>)
    ensures
        !config.contains_key("delta.columnMapping.maxColumnId"@) ==> max_column_id_in(config) == 0,
        config.contains_key("delta.columnMapping.maxColumnId"@) ==> {
            let text = config["delta.columnMapping.maxColumnId"@];
            &&& i64_in(text) is None ==> max_column_id_in(config) == 0
            &&& i64_in(text) is Some ==> max_column_id_in(config) == i64_in(text)->0
        },
{
}

/// Law: a text stands for a 64-bit number if and only if it is one of the texts for it: decimal
/// digits, one at least, after a minus sign, a plus sign or none, that have the number's value.
pub proof fn law_texts_that_stand_for_a_number(text: Seq<char>, n: int)
    ensures
        i64_in(text) == Some(n) <==> {
            &&& i64::MIN <= n <= i64::MAX
            &&& {
                ||| is_digits(text) && n == digits_value(text)
                ||| text.len() > 0 && text[0] == '+' && is_digits(text.drop_first()) && n
                    == digits_value(text.drop_first())
                ||| text.len() > 0 && text[0] == '-' && is_digits(text.drop_first()) && n
                    == -digits_value(text.drop_first())
            }
        },
{
    if is_digits(text) {
        assert(is_digit(text[0]));
    }
}

/// Law: one more digit makes ten times the number, and the digit added.
pub proof fn law_digits_count_in_tens(text: Seq<char>, c: char)
    ensures
        digits_value(Seq::<char>::empty()) == 0,
        digits_value(text.push(c)) == 10 * digits_value(text) + (c as int - '0' as int),
        is_digits(text.push(c)) <==> '0' <= c <= '9' && (text.len() == 0 || is_digits(text)),
{
    let more = text.push(c);
    assert(more.drop_last() =~= text);
    if is_digits(more) {
        assert(more[text.len() as int] == c);
        assert forall|i: int| 0 <= i < text.len() implies is_digit(#[trigger] text[i]) by {
            assert(more[i] == text[i]);
        }
    }
    if '0' <= c <= '9' && (text.len() == 0 || is_digits(text)) {
        assert forall|i: int| 0 <= i < more.len() implies is_digit(#[trigger] more[i]) by {
            if i < text.len() {
                assert(more[i] == text[i]);
            }
        }
    }
}

/// Law: the mode setting may be given the values `name` and `id` on any table, and `none` on a
/// table without column mapping. Giving it `none` on another table is switching column mapping
/// off, and any other value is no mode.
pub proof fn law_what_the_mode_setting_may_be_given(value: Seq<char>, current: ColumnMappingMode)
    ensures
        mode_fault(value, current) is None <==> {
            ||| value == "name"@
            ||| value == "id"@
            ||| value == "none"@ && current == ColumnMappingMode::NoMapping
        },
        mode_fault(value, current) == Some(Fault::Disabling) <==> value == "none"@ && current
            != ColumnMappingMode::NoMapping,
        mode_fault(value, current) == Some(Fault::InvalidMode { setting: value }) <==> value
            != "name"@ && value != "id"@ && value != "none"@,
{
    lemma_mode_words_differ();
}

/// Law: the greatest id found in a schema is none less than zero and than the ids of its fields,
/// and is zero or one of them.
pub proof fn law_greatest_id_found(fields: Seq<FieldView>, found: int)
    requires
        is_max_column_id(fields, found),
    ensures
        found >= 0,
        forall|i: int, id: int|
            0 <= i < fields.len() && #[trigger] has_number_for_id(fields[i], id) ==> id <= found,
        found == 0 || exists|i: int|
            0 <= i < fields.len() && has_number_for_id(#[trigger] fields[i], found),
{
    assert forall|i: int, id: int|
        0 <= i < fields.len() && #[trigger] has_number_for_id(fields[i], id) implies id
        <= found by {
        assert(id_of(fields[i]) == Some(id));
    }
    if found != 0 {
        let i = choose|i: int| 0 <= i < fields.len() && id_of(#[trigger] fields[i]) == Some(found);
        assert(has_number_for_id(fields[i], found));
    }
}

/// Whether a field has a number under the key `delta.columnMapping.id`.
pub open spec fn has_number_for_id(field: FieldView, id: int) -> bool {
    &&& field.metadata.contains_key("delta.columnMapping.id"@)
    &&& field.metadata["delta.columnMapping.id"@] == ValueView::Number(id)
}

/// Law: a protocol with a reader version below 3 and a writer version below 7 comes back with the
/// feature lists that it had, none staying none, with its reader version but at least 2, and with
/// its writer version but at least 5.
pub proof fn law_legacy_protocol_changes_in_its_versions_only(protocol: ProtocolView)
    requires
        protocol.min_reader_version < 3,
        protocol.min_writer_version < 7,
    ensures
        with_column_mapping(protocol).reader_features == protocol.reader_features,
        with_column_mapping(protocol).writer_features == protocol.writer_features,
        with_column_mapping(protocol).min_reader_version >= 2,
        with_column_mapping(protocol).min_writer_version >= 5,
        protocol.min_reader_version >= 2 ==> with_column_mapping(protocol).min_reader_version
            == protocol.min_reader_version,
        protocol.min_reader_version < 2 ==> with_column_mapping(protocol).min_reader_version == 2,
        protocol.min_writer_version >= 5 ==> with_column_mapping(protocol).min_writer_version
            == protocol.min_writer_version,
        protocol.min_writer_version < 5 ==> with_column_mapping(protocol).min_writer_version == 5,
{
}

/// Law: a protocol with a reader version from 3 on or a writer version from 7 on comes back with
/// the versions 3 and 7, and with `columnMapping` at the end of each feature list that did not
/// hold it. A list that held it stays as it is, and a missing one comes back with nothing else.
pub proof fn law_protocol_with_features_gets_the_feature(protocol: ProtocolView)
    requires
        protocol.min_reader_version >= 3 || protocol.min_writer_version >= 7,
    ensures
        with_column_mapping(protocol).min_reader_version == 3,
        with_column_mapping(protocol).min_writer_version == 7,
        has_feature_added(protocol.reader_features, with_column_mapping(protocol).reader_features),
        has_feature_added(protocol.writer_features, with_column_mapping(protocol).writer_features),
{
    lemma_feature_at_the_end(protocol.reader_features);
    lemma_feature_at_the_end(protocol.writer_features);
}

/// Whether a feature list is another with `columnMapping` at its end, unless that held it.
pub open spec fn has_feature_added(
    before: Option<Seq<Seq<char>>>,
    after: Option<Seq<Seq<char>>>,
) -> bool {
    &&& after is Some
    &&& match before {
        Some(given) => {
            &&& (exists|i: int| 0 <= i < given.len() && #[trigger] given[i] == "columnMapping"@)
                ==> after->0 == given
            &&& (forall|i: int| 0 <= i < given.len() ==> #[trigger] given[i] != "columnMapping"@)
                ==> after->0 == given.push("columnMapping"@)
        },
        None => after->0 == seq!["columnMapping"@],
    }
}

/// Adding column mapping to a feature list puts it at the end, unless the list held it.
proof fn lemma_feature_at_the_end(features: Option<Seq<Seq<char>>>)
    ensures
        has_feature_added(features, Some(with_column_mapping_feature(features))),
{
    if let Some(given) = features {
        if exists|i: int| 0 <= i < given.len() && #[trigger] given[i] == "columnMapping"@ {
            assert(given.contains("columnMapping"@));
        }
    }
}

/// Law: a protocol is seen with its versions and with the names in its feature lists, in order.
pub proof fn law_protocol_is_seen_as_it_is(protocol: Protocol)
    ensures
        protocol@.min_reader_version == protocol.min_reader_version,
        protocol@.min_writer_version == protocol.min_writer_version,
        seen_as(protocol.reader_features, protocol@.reader_features),
        seen_as(protocol.writer_features, protocol@.writer_features),
{
}

/// Whether a feature list is seen as the list of its names.
pub open spec fn seen_as(features: Option<Vec<String>>, names: Option<Seq<Seq<char>>>) -> bool {
    match features {
        Some(list) => {
            &&& names is Some
            &&& names->0.len() == list@.len()
            &&& forall|i: int| 0 <= i < list@.len() ==> #[trigger] names->0[i] == list@[i]@
        },
        None => names is None,
    }
}

} // verus!
