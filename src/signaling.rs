use vstd::prelude::*;

use crate::text::text_eq;

verus! {

/// One named value of a data address.
#[derive(Debug)]
pub struct EndpointProperty {
    pub name: String,
    pub value: String,
}

impl View for EndpointProperty {
    type V = (Seq<char>, Seq<char>);

    open spec fn view(&self) -> (Seq<char>, Seq<char>) {
        (self.name@, self.value@)
    }
}

impl EndpointProperty {
    pub fn new(name: String, value: String) -> (r: EndpointProperty)
        ensures
            r.name@ == name@,
            r.value@ == value@,
    {
        EndpointProperty { name, value }
    }
}

/// Where data can be reached: the kind of endpoint and its properties, in order.
#[derive(Debug)]
pub struct DataAddress {
    pub endpoint_type: String,
    pub endpoint_properties: Vec<EndpointProperty>,
}

/// The properties of a data address, as pairs of name and value.
pub open spec fn properties_view(v: Seq<EndpointProperty>) -> Seq<(Seq<char>, Seq<char>)> {
    v.map_values(|p: EndpointProperty| p@)
}

/// The value of the first property named `name`.
pub open spec fn property_of(props: Seq<(Seq<char>, Seq<char>)>, name: Seq<char>) -> Option<
    Seq<char>,
>
    decreases props.len(),
{
    if props.len() == 0 {
        None
    } else if props[0].0 == name {
        Some(props[0].1)
    } else {
        property_of(props.skip(1), name)
    }
}

impl DataAddress {
    /// The properties, as pairs of name and value.
    pub open spec fn properties(&self) -> Seq<(Seq<char>, Seq<char>)> {
        properties_view(self.endpoint_properties@)
    }

    /// The value of the first property named `name`, if there is one.
    pub fn get_property(&self, name: &str) -> (r: Option<&str>)
        ensures
            match r {
                Some(v) => property_of(self.properties(), name@) == Some(v@),
                None => property_of(self.properties(), name@) is None,
            },
    {
        let props = &self.endpoint_properties;
        let mut i: usize = 0;
        assert(self.properties().skip(0) =~= self.properties());
        while i < props.len()
            invariant
                i <= props@.len(),
                property_of(self.properties(), name@) == property_of(
                    self.properties().skip(i as int),
                    name@,
                ),
                props == &self.endpoint_properties,
            decreases props@.len() - i,
        {
            let ghost rest = self.properties().skip(i as int);
            assert(rest[0] == props@[i as int]@);
            assert(rest.skip(1) =~= self.properties().skip(i + 1));
            if text_eq(props[i].name.as_str(), name) {
                return Some(props[i].value.as_str());
            }
            i += 1;
        }
        None
    }
}

/// How data is handed over; only pulling is offered.
#[derive(Debug)]
pub enum FlowType {
    Pull,
}

/// The control plane's request to start a transfer.
#[derive(Debug)]
pub struct DataFlowStartMessage {
    pub agreement_id: String,
    pub dataset_id: String,
    pub participant_id: String,
    pub process_id: String,
    pub flow_type: FlowType,
    pub source_data_address: DataAddress,
}

/// The answer to a start request: where the consumer reaches the data.
#[derive(Debug)]
pub struct DataFlowResponseMessage {
    pub data_address: Option<DataAddress>,
}

impl DataFlowResponseMessage {
    pub fn new(data_address: Option<DataAddress>) -> (r: DataFlowResponseMessage)
        ensures
            r.data_address == data_address,
    {
        DataFlowResponseMessage { data_address }
    }
}

/// A message that is sent under a type name.
pub trait TypedObject {
    fn get_type() -> &'static str;
}

impl TypedObject for DataFlowResponseMessage {
    fn get_type() -> &'static str {
        "DataFlowResponseMessage"
    }
}

/// The control plane's request to end a transfer.
#[derive(Debug)]
pub struct DataFlowTerminateMessage {
    pub reason: Option<String>,
}

/// The control plane's request to pause a transfer.
#[derive(Debug)]
pub struct DataFlowSuspendMessage {
    pub reason: Option<String>,
}

} // verus!
