//! Snapshots of a service's health.

use crate::json::{JsonObject, JsonValue};
use crate::service::status::ServiceStatus;
use crate::util::string_map::{lemma_lookup_after_insert_all, lookup, StringMap};
use vstd::prelude::*;

verus! {

/// A snapshot of a service's health, emitted with service-status events and
/// returned by a service's report.
#[derive(Debug, Clone)]
pub struct ServiceReport {
    pub service_class_name: String,
    pub service_status: ServiceStatus,
    pub registered: bool,
    pub running: bool,
    pub version: Option<String>,
    pub services_dependent_upon: Vec<String>,
}

/// Whether `v` is a JSON string holding `t`.
pub open spec fn is_json_text(v: Option<JsonValue>, t: Seq<char>) -> bool {
    v matches Some(JsonValue::String(s)) && s@ == t
}

/// Whether `v` is the JSON object of report `r`: `service_class_name`,
/// `service_status` (the status name), `registered`, `running`, then `version`
/// when there is one and `services_dependent_upon` when there are any, and no
/// other member.
pub open spec fn is_report_json(v: JsonValue, r: ServiceReport) -> bool {
    v matches JsonValue::Object(o) && {
        &&& is_json_text(lookup(o@, "service_class_name"@), r.service_class_name@)
        &&& is_json_text(lookup(o@, "service_status"@), r.service_status.name())
        &&& lookup(o@, "registered"@) == Some(JsonValue::Bool(r.registered))
        &&& lookup(o@, "running"@) == Some(JsonValue::Bool(r.running))
        &&& match r.version {
            Some(v) => is_json_text(lookup(o@, "version"@), v@),
            None => lookup(o@, "version"@) is None,
        }
        &&& if r.services_dependent_upon@.len() == 0 {
            lookup(o@, "services_dependent_upon"@) is None
        } else {
            lookup(o@, "services_dependent_upon"@) matches Some(JsonValue::Array(a)) && a@.len()
                == r.services_dependent_upon@.len() && forall|i: int|
                0 <= i < a@.len() ==> (#[trigger] a@[i] matches JsonValue::String(s) && s@
                    == r.services_dependent_upon@[i]@)
        }
        &&& forall|k: Seq<char>|
            k != "service_class_name"@ && k != "service_status"@ && k != "registered"@ && k
                != "running"@ && k != "version"@ && k != "services_dependent_upon"@
                ==> #[trigger] lookup(o@, k) is None
    }
}

impl ServiceReport {
    /// The report as a JSON object: `service_class_name`, `service_status`
    /// (the status name), `registered`, `running`, then `version` when there is
    /// one and `services_dependent_upon` when there are any.
    pub fn to_json(&self) -> (r: JsonValue)
        ensures
            is_report_json(r, *self),
    {
        proof {
            reveal_strlit("service_class_name");
            reveal_strlit("service_status");
            reveal_strlit("registered");
            reveal_strlit("running");
            reveal_strlit("version");
            reveal_strlit("services_dependent_upon");
        }
        let mut o: JsonObject = StringMap::new();
        let ghost o0 = o@;
        let v1 = JsonValue::String(self.service_class_name.clone());
        let ghost g1 = v1;
        o.insert(crate::text::owned("service_class_name"), v1);
        proof {
            lemma_lookup_after_insert_all(o0, "service_class_name"@, g1);
        }
        let ghost o1 = o@;
        let v2 = JsonValue::String(crate::text::owned(self.service_status.as_str()));
        let ghost g2 = v2;
        o.insert(crate::text::owned("service_status"), v2);
        proof {
            lemma_lookup_after_insert_all(o1, "service_status"@, g2);
        }
        let ghost o2 = o@;
        o.insert(crate::text::owned("registered"), JsonValue::Bool(self.registered));
        proof {
            lemma_lookup_after_insert_all(o2, "registered"@, JsonValue::Bool(self.registered));
        }
        let ghost o3 = o@;
        o.insert(crate::text::owned("running"), JsonValue::Bool(self.running));
        proof {
            lemma_lookup_after_insert_all(o3, "running"@, JsonValue::Bool(self.running));
        }
        let ghost o4 = o@;
        match &self.version {
            Some(v) => {
                let v5 = JsonValue::String(v.clone());
                let ghost g5 = v5;
                o.insert(crate::text::owned("version"), v5);
                proof {
                    lemma_lookup_after_insert_all(o4, "version"@, g5);
                }
            },
            None => {},
        }
        let ghost o5 = o@;
        if self.services_dependent_upon.len() > 0 {
            let mut a: Vec<JsonValue> = Vec::new();
            let mut i: usize = 0;
            while i < self.services_dependent_upon.len()
                invariant
                    i <= self.services_dependent_upon@.len(),
                    a@.len() == i,
                    forall|j: int|
                        0 <= j < i ==> (#[trigger] a@[j] matches JsonValue::String(s) && s@
                            == self.services_dependent_upon@[j]@),
                decreases self.services_dependent_upon@.len() - i,
            {
                a.push(JsonValue::String(self.services_dependent_upon[i].clone()));
                i = i + 1;
            }
            let v6 = JsonValue::Array(a);
            let ghost g6 = v6;
            o.insert(crate::text::owned("services_dependent_upon"), v6);
            proof {
                lemma_lookup_after_insert_all(o5, "services_dependent_upon"@, g6);
            }
        }
        JsonValue::Object(o)
    }
}

} // verus!
