//! What is exported, field by field: numbers, severities, records and the
//! document that carries them.

use vstd::prelude::*;
use crate::json::{collected, object, Json};
use crate::laws::{carried_records, law_document_carries_the_batch};
use crate::otel::{
    attribute, document, integer_value, level_of, models, record, record_attributes,
    record_members, records, resource, resource_logs, scope, scope_logs, service_attributes,
    severity_number, severity_text, string_value, Level, LogEntry,
};
use crate::text::{decimal, upper};

verus! {

// ---- numbers ----

/// The number that a row of decimal digits stands for.
pub open spec fn numeral(text: Seq<char>) -> int
    decreases text.len(),
{
    if text.len() == 0 {
        0
    } else {
        10 * numeral(text.drop_last()) + (text.last() as int - '0' as int)
    }
}

/// A number in decimal notation reads back as that number. It is made of
/// digits alone, and has no leading zero.
pub proof fn law_decimal_reads_back(n: nat)
    ensures
        numeral(decimal(n)) == n,
        decimal(n).len() > 0,
        forall|i: int| 0 <= i < decimal(n).len() ==> '0' <= #[trigger] decimal(n)[i] <= '9',
        decimal(n).len() > 1 ==> decimal(n)[0] != '0',
        n > 0 ==> decimal(n)[0] != '0',
    decreases n,
{
    let text = decimal(n);
    reveal_with_fuel(numeral, 2);
    if n < 10 {
        assert(text.drop_last() =~= Seq::<char>::empty());
    } else {
        law_decimal_reads_back(n / 10);
        assert(text.last() as int == 48 + n % 10);
        assert(text.drop_last() =~= decimal(n / 10));
    }
}

// ---- severities ----

/// Whether a text spells a name that is in upper case, each letter in either
/// case.
pub open spec fn spells(text: Seq<char>, name: Seq<char>) -> bool {
    &&& text.len() == name.len()
    &&& forall|i: int|
        0 <= i < name.len() ==> #[trigger] text[i] == name[i] || text[i] as int == name[i] as int
            + 32
}

proof fn lemma_spells(text: Seq<char>, name: Seq<char>)
    requires
        forall|i: int| 0 <= i < name.len() ==> 'A' <= #[trigger] name[i] <= 'Z',
    ensures
        upper(text) == name <==> spells(text, name),
{
    if upper(text) == name {
        assert forall|i: int| 0 <= i < name.len() implies #[trigger] text[i] == name[i]
            || text[i] as int == name[i] as int + 32 by {
            assert(upper(text)[i] == name[i]);
        }
    }
    if spells(text, name) {
        assert forall|i: int| 0 <= i < name.len() implies upper(text)[i] == name[i] by {
            assert(text[i] == name[i] || text[i] as int == name[i] as int + 32);
        }
        assert(upper(text) =~= name);
    }
}

/// The severity of a level, by the text that names it: debug is 5, warn (or
/// warning) is 13, error is 17, and everything else is info, 9.
pub proof fn law_severity_by_name(text: Seq<char>)
    ensures
        spells(text, "DEBUG"@) ==> level_of(text) == Level::Debug && severity_number(level_of(text))
            == 5 && severity_text(level_of(text)) == "DEBUG"@,
        spells(text, "WARN"@) || spells(text, "WARNING"@) ==> level_of(text) == Level::Warn
            && severity_number(level_of(text)) == 13 && severity_text(level_of(text)) == "WARN"@,
        spells(text, "ERROR"@) ==> level_of(text) == Level::Error && severity_number(level_of(text))
            == 17 && severity_text(level_of(text)) == "ERROR"@,
        !spells(text, "DEBUG"@) && !spells(text, "WARN"@) && !spells(text, "WARNING"@) && !spells(
            text,
            "ERROR"@,
        ) ==> level_of(text) == Level::Info && severity_number(level_of(text)) == 9
            && severity_text(level_of(text)) == "INFO"@,
{
    reveal_strlit("DEBUG");
    reveal_strlit("WARN");
    reveal_strlit("WARNING");
    reveal_strlit("ERROR");
    assert("DEBUG"@[0] != "ERROR"@[0]);
    lemma_spells(text, "DEBUG"@);
    lemma_spells(text, "WARN"@);
    lemma_spells(text, "WARNING"@);
    lemma_spells(text, "ERROR"@);
}

// ---- records ----

/// An attribute with a text, as OTLP writes it.
pub open spec fn text_attribute(key: Seq<char>, text: Seq<char>) -> Json {
    Json::Object(
        map![
            "key"@ => Json::Text(key),
            "value"@ => Json::Object(map!["stringValue"@ => Json::Text(text)]),
        ],
    )
}

/// An attribute with an integer, as OTLP writes it.
pub open spec fn number_attribute(key: Seq<char>, n: int) -> Json {
    Json::Object(
        map![
            "key"@ => Json::Text(key),
            "value"@ => Json::Object(map!["intValue"@ => Json::Int(n)]),
        ],
    )
}

/// One where something is there, else none.
pub open spec fn one_if(there: bool) -> int {
    if there {
        1
    } else {
        0
    }
}

proof fn lemma_object_of_one(key: Seq<char>, value: Json)
    ensures
        object(seq![(key, value)]) == Json::Object(map![key => value]),
{
    let members = seq![(key, value)];
    reveal_with_fuel(collected, 2);
    assert(members.drop_last() =~= seq![]);
}

proof fn lemma_object_of_two(key1: Seq<char>, value1: Json, key2: Seq<char>, value2: Json)
    ensures
        object(seq![(key1, value1), (key2, value2)]) == Json::Object(
            map![key1 => value1, key2 => value2],
        ),
{
    let members = seq![(key1, value1), (key2, value2)];
    lemma_object_of_one(key1, value1);
    assert(members.drop_last() =~= seq![(key1, value1)]);
    assert(collected(members) == collected(members.drop_last()).insert(key2, value2));
}

/// An attribute with a text holds its key and that text, and nothing else.
pub proof fn law_text_attribute(key: Seq<char>, text: Seq<char>)
    ensures
        attribute(key, string_value(text)) == text_attribute(key, text),
{
    lemma_object_of_one("stringValue"@, Json::Text(text));
    lemma_object_of_two(
        "key"@,
        Json::Text(key),
        "value"@,
        Json::Object(map!["stringValue"@ => Json::Text(text)]),
    );
}

/// An attribute with an integer holds its key and that integer, and nothing
/// else.
pub proof fn law_number_attribute(key: Seq<char>, n: int)
    ensures
        attribute(key, integer_value(n)) == number_attribute(key, n),
{
    lemma_object_of_one("intValue"@, Json::Int(n));
    lemma_object_of_two(
        "key"@,
        Json::Text(key),
        "value"@,
        Json::Object(map!["intValue"@ => Json::Int(n)]),
    );
}

/// What an entry is taken to say is what its fields hold.
pub proof fn law_entries_say_their_fields(entries: Seq<LogEntry>)
    ensures
        models(entries).len() == entries.len(),
        forall|i: int|
            #![trigger models(entries)[i]]
            0 <= i < entries.len() ==> {
                let said = models(entries)[i];
                let e = entries[i];
                &&& said == e@
                &&& said.time_unix_nano == e.time_unix_nano
                &&& said.body == e.body@
                &&& said.level == e.level@
                &&& said.configuration_name == e.configuration_name@
                &&& said.category == e.category@
                &&& said.phase == e.phase@
                &&& said.http_method == e.http_method@
                &&& said.http_path == e.http_path@
                &&& said.http_status_code == e.http_status_code
            },
{
}

/// The attributes of the record of an entry: the name of the configuration and
/// the phase always, then the category, the method, the path and the status,
/// each exactly where the entry has it, with the value that it has there.
pub proof fn law_record_attributes_hold_the_fields(entry: LogEntry)
    ensures
        ({
            let attributes = record_attributes(entry@);
            let c = one_if(entry.category@.len() > 0);
            let m = one_if(entry.http_method@.len() > 0);
            let p = one_if(entry.http_path@.len() > 0);
            let s = one_if(entry.http_status_code > 0);
            &&& attributes.len() == 2 + c + m + p + s
            &&& attributes[0] == text_attribute(
                "log.configuration_name"@,
                entry.configuration_name@,
            )
            &&& attributes[1] == text_attribute("log.phase"@, entry.phase@)
            &&& c == 1 ==> attributes[2] == text_attribute("category"@, entry.category@)
            &&& m == 1 ==> attributes[2 + c] == text_attribute(
                "http.request.method"@,
                entry.http_method@,
            )
            &&& p == 1 ==> attributes[2 + c + m] == text_attribute("url.path"@, entry.http_path@)
            &&& s == 1 ==> attributes[2 + c + m + p] == number_attribute(
                "http.response.status_code"@,
                entry.http_status_code as int,
            )
        }),
{
    law_text_attribute("log.configuration_name"@, entry.configuration_name@);
    law_text_attribute("log.phase"@, entry.phase@);
    law_text_attribute("category"@, entry.category@);
    law_text_attribute("http.request.method"@, entry.http_method@);
    law_text_attribute("url.path"@, entry.http_path@);
    law_number_attribute("http.response.status_code"@, entry.http_status_code as int);
}

/// The record of an entry has these members and no other: the time twice, the
/// severity as number and text, the line, and the attributes.
pub proof fn law_record_has_these_members(entry: LogEntry)
    ensures
        record(entry@) == Json::Object(
            map![
                "timeUnixNano"@ => Json::Text(decimal(entry.time_unix_nano as nat)),
                "observedTimeUnixNano"@ => Json::Text(decimal(entry.time_unix_nano as nat)),
                "severityNumber"@ => Json::Int(severity_number(level_of(entry.level@))),
                "severityText"@ => Json::Text(severity_text(level_of(entry.level@))),
                "body"@ => Json::Object(map!["stringValue"@ => Json::Text(entry.body@)]),
                "attributes"@ => Json::Array(record_attributes(entry@)),
            ],
        ),
{
    let m = record_members(entry@);
    lemma_object_of_one("stringValue"@, Json::Text(entry.body@));
    let m5 = m.drop_last();
    let m4 = m5.drop_last();
    let m3 = m4.drop_last();
    let m2 = m3.drop_last();
    let m1 = m2.drop_last();
    assert(m1.drop_last() =~= seq![]);
    assert(collected(m) == collected(m5).insert(m[5].0, m[5].1));
    assert(collected(m5) == collected(m4).insert(m[4].0, m[4].1));
    assert(collected(m4) == collected(m3).insert(m[3].0, m[3].1));
    assert(collected(m3) == collected(m2).insert(m[2].0, m[2].1));
    assert(collected(m2) == collected(m1).insert(m[1].0, m[1].1));
    assert(collected(m1) == collected(m1.drop_last()).insert(m[0].0, m[0].1));
    assert(collected(m1.drop_last()) == Map::<Seq<char>, Json>::empty());
}

/// Entries with the same record have the same time, severity, line,
/// configuration and phase: a record loses none of these.
pub proof fn law_same_record_same_line(a: LogEntry, b: LogEntry)
    requires
        record(a@) == record(b@),
    ensures
        a.time_unix_nano == b.time_unix_nano,
        severity_number(level_of(a.level@)) == severity_number(level_of(b.level@)),
        a.body@ == b.body@,
        a.configuration_name@ == b.configuration_name@,
        a.phase@ == b.phase@,
{
    reveal_strlit("timeUnixNano");
    reveal_strlit("observedTimeUnixNano");
    reveal_strlit("severityNumber");
    reveal_strlit("severityText");
    reveal_strlit("body");
    reveal_strlit("attributes");
    reveal_strlit("key");
    reveal_strlit("value");
    assert("timeUnixNano"@.len() == 12 && "severityText"@.len() == 12);
    assert("observedTimeUnixNano"@.len() == 20 && "severityNumber"@.len() == 14);
    assert("body"@.len() == 4 && "attributes"@.len() == 10);
    assert("timeUnixNano"@[0] != "severityText"@[0]);
    assert("key"@.len() != "value"@.len());
    law_record_has_these_members(a);
    law_record_has_these_members(b);
    law_record_attributes_hold_the_fields(a);
    law_record_attributes_hold_the_fields(b);
    law_decimal_reads_back(a.time_unix_nano as nat);
    law_decimal_reads_back(b.time_unix_nano as nat);
    let ma = record(a@)->Object_0;
    let mb = record(b@)->Object_0;
    assert(ma["timeUnixNano"@] == mb["timeUnixNano"@]);
    assert(ma["severityNumber"@] == mb["severityNumber"@]);
    assert(ma["body"@] == mb["body"@]);
    assert(ma["body"@]->Object_0["stringValue"@] == mb["body"@]->Object_0["stringValue"@]);
    assert(ma["attributes"@] == mb["attributes"@]);
    let aa = record_attributes(a@);
    let ab = record_attributes(b@);
    assert(aa == ab);
    assert(aa[0]->Object_0["value"@]->Object_0["stringValue"@]
        == ab[0]->Object_0["value"@]->Object_0["stringValue"@]);
    assert(aa[1]->Object_0["value"@]->Object_0["stringValue"@]
        == ab[1]->Object_0["value"@]->Object_0["stringValue"@]);
}

// ---- documents ----

/// The records that the document of a batch carries are as many as there are
/// entries, and each is the record of the entry at its place.
pub proof fn law_document_carries_every_entry(
    entries: Seq<LogEntry>,
    service_name: Seq<char>,
    service_instance_id: Seq<char>,
)
    ensures
        ({
            let carried = carried_records(
                document(models(entries), service_name, service_instance_id),
            );
            &&& carried matches Some(Json::Array(items))
            &&& items.len() == entries.len()
            &&& forall|i: int|
                0 <= i < entries.len() ==> #[trigger] items[i] == record(entries[i]@)
        }),
{
    law_document_carries_the_batch(models(entries), service_name, service_instance_id);
    let items = records(models(entries));
    assert forall|i: int| 0 <= i < entries.len() implies #[trigger] items[i] == record(
        entries[i]@,
    ) by {
        assert(models(entries)[i] == entries[i]@);
    }
}

/// The document of a batch speaks for one resource, which names the service and
/// its instance, in one scope, which names this policy and its version; it
/// holds nothing else besides its records.
pub proof fn law_document_has_one_resource_and_scope(
    entries: Seq<LogEntry>,
    service_name: Seq<char>,
    service_instance_id: Seq<char>,
)
    ensures
        ({
            let doc = document(models(entries), service_name, service_instance_id);
            &&& carried_records(doc) matches Some(carried)
            &&& doc == Json::Object(
                map![
                    "resourceLogs"@ => Json::Array(seq![
                        Json::Object(map![
                            "resource"@ => Json::Object(map![
                                "attributes"@ => Json::Array(seq![
                                    text_attribute("service.name"@, service_name),
                                    text_attribute("service.instance.id"@, service_instance_id),
                                ]),
                            ]),
                            "scopeLogs"@ => Json::Array(seq![
                                Json::Object(map![
                                    "scope"@ => Json::Object(map![
                                        "name"@ => Json::Text("omni-log-forwarder"@),
                                        "version"@ => Json::Text("1.0.0"@),
                                    ]),
                                    "logRecords"@ => carried,
                                ]),
                            ]),
                        ]),
                    ]),
                ],
            )
        }),
{
    let batch = models(entries);
    law_document_carries_the_batch(batch, service_name, service_instance_id);
    let carried = Json::Array(records(batch));
    let names = service_attributes(service_name, service_instance_id);
    law_text_attribute("service.name"@, service_name);
    law_text_attribute("service.instance.id"@, service_instance_id);
    assert(names =~= seq![
        text_attribute("service.name"@, service_name),
        text_attribute("service.instance.id"@, service_instance_id),
    ]);
    lemma_object_of_one("attributes"@, Json::Array(names));
    lemma_object_of_two(
        "name"@,
        Json::Text("omni-log-forwarder"@),
        "version"@,
        Json::Text("1.0.0"@),
    );
    lemma_object_of_two("scope"@, scope(), "logRecords"@, carried);
    lemma_object_of_two(
        "resource"@,
        resource(service_name, service_instance_id),
        "scopeLogs"@,
        Json::Array(seq![scope_logs(batch)]),
    );
    lemma_object_of_one(
        "resourceLogs"@,
        Json::Array(seq![resource_logs(batch, service_name, service_instance_id)]),
    );
}

} // verus!
