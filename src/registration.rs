use vstd::prelude::*;
use vstd::string::StringExecFns;

use crate::claims::{json_string, push_escaped};
use crate::namespace::EDC_PREFIX;
use crate::text::{push_char, push_str};

verus! {

/// Where and as what this data plane announces itself to the control plane.
pub struct SignalingConfig {
    pub control_plane_url: String,
    pub signaling_url: String,
    pub transfer_types: Vec<String>,
    pub source_types: Vec<String>,
}

/// Announces this data plane to the control plane until it is accepted.
pub struct RegistrationExtension {
    pub component_id: String,
    pub cfg: SignalingConfig,
}

/// What to do after an attempt to register.
#[derive(Clone, Copy, Debug, PartialEq, Eq, Structural)]
pub enum RegistrationStep {
    Done,
    RetryAfterSeconds(u64),
}

/// The JSON array of strings.
pub open spec fn json_array(v: Seq<Seq<char>>) -> Seq<char>
    decreases v.len(),
{
    if v.len() == 0 {
        "[]"@
    } else {
        json_items(v) + "]"@
    }
}

/// `[` and the items of a JSON array of strings, separated by commas.
pub open spec fn json_items(v: Seq<Seq<char>>) -> Seq<char>
    decreases v.len(),
{
    if v.len() == 0 {
        "["@
    } else if v.len() == 1 {
        "["@ + json_string(v[0])
    } else {
        json_items(v.drop_last()) + ","@ + json_string(v.last())
    }
}

/// The texts of a list of strings.
pub open spec fn texts_view(v: Seq<String>) -> Seq<Seq<char>> {
    v.map_values(|s: String| s@)
}

fn push_json_array(out: &mut String, v: &Vec<String>)
    ensures
        final(out)@ == old(out)@ + json_array(texts_view(v@)),
{
    if v.len() == 0 {
        push_str(out, "[]");
        return;
    }
    push_str(out, "[");
    let mut i: usize = 0;
    while i < v.len()
        invariant
            0 < v@.len(),
            i <= v@.len(),
            out@ == old(out)@ + json_items(texts_view(v@.take(i as int))),
        decreases v@.len() - i,
    {
        let ghost before = out@;
        proof {
            assert(texts_view(v@.take(i + 1)).drop_last() =~= texts_view(v@.take(i as int)));
            assert(texts_view(v@.take(i + 1)).last() == v@[i as int]@);
        }
        if i > 0 {
            push_str(out, ",");
        }
        push_char(out, '"');
        push_escaped(out, v[i].as_str());
        push_char(out, '"');
        proof {
            if i == 0 {
                assert(texts_view(v@.take(1)).len() == 1);
                assert(out@ =~= old(out)@ + json_items(texts_view(v@.take(1))));
            } else {
                assert(out@ =~= old(out)@ + json_items(texts_view(v@.take(i + 1))));
            }
        }
        i += 1;
    }
    assert(v@.take(v@.len() as int) =~= v@);
    push_str(out, "]");
    assert(out@ =~= old(out)@ + json_array(texts_view(v@)));
}

impl RegistrationExtension {
    pub fn new(component_id: String, cfg: SignalingConfig) -> (r: RegistrationExtension)
        ensures
            r.component_id == component_id,
            r.cfg == cfg,
    {
        RegistrationExtension { component_id, cfg }
    }

    /// Where the announcement is posted.
    pub fn registration_url(&self) -> (r: String)
        ensures
            r@ == self.cfg.control_plane_url@ + "/v1/dataplanes"@,
    {
        let mut out = self.cfg.control_plane_url.clone();
        push_str(&mut out, "/v1/dataplanes");
        out
    }

    /// The announcement: this data plane's id and URL, and the kinds of
    /// transfer, source and destination it takes.
    pub open spec fn body_spec(&self) -> Seq<char> {
        "{\"@context\":{\"@vocab\":"@ + json_string(EDC_PREFIX@) + "},\"@id\":"@ + json_string(
            self.component_id@,
        ) + ",\"url\":"@ + json_string(self.cfg.signaling_url@) + ",\"allowedTransferTypes\":"@
            + json_array(texts_view(self.cfg.transfer_types@)) + ",\"allowedSourceTypes\":"@
            + json_array(texts_view(self.cfg.source_types@)) + ",\"allowedDestTypes\":"@
            + json_array(texts_view(self.cfg.source_types@)) + "}"@
    }

    /// The JSON text of the announcement.
    pub fn registration_body(&self) -> (r: String)
        ensures
            r@ == self.body_spec(),
    {
        let mut out = String::new();
        push_str(&mut out, "{\"@context\":{\"@vocab\":");
        push_char(&mut out, '"');
        push_escaped(&mut out, EDC_PREFIX);
        push_char(&mut out, '"');
        push_str(&mut out, "},\"@id\":");
        push_char(&mut out, '"');
        push_escaped(&mut out, self.component_id.as_str());
        push_char(&mut out, '"');
        push_str(&mut out, ",\"url\":");
        push_char(&mut out, '"');
        push_escaped(&mut out, self.cfg.signaling_url.as_str());
        push_char(&mut out, '"');
        push_str(&mut out, ",\"allowedTransferTypes\":");
        push_json_array(&mut out, &self.cfg.transfer_types);
        push_str(&mut out, ",\"allowedSourceTypes\":");
        push_json_array(&mut out, &self.cfg.source_types);
        push_str(&mut out, ",\"allowedDestTypes\":");
        push_json_array(&mut out, &self.cfg.source_types);
        push_str(&mut out, "}");
        assert(out@ =~= self.body_spec());
        out
    }

    /// What follows an attempt: done once the control plane accepted it (a
    /// 2xx status), else another attempt two seconds later.
    pub fn next_step(status: Option<u16>) -> (r: RegistrationStep)
        ensures
            (status matches Some(s) && 200 <= s < 300) ==> r == RegistrationStep::Done,
            !(status matches Some(s) && 200 <= s < 300) ==> r == RegistrationStep::RetryAfterSeconds(
                2,
            ),
    {
        match status {
            Some(s) => if 200 <= s && s < 300 {
                RegistrationStep::Done
            } else {
                RegistrationStep::RetryAfterSeconds(2)
            },
            None => RegistrationStep::RetryAfterSeconds(2),
        }
    }
}

} // verus!
