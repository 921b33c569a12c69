use vstd::prelude::*;

verus! {

/// A stream a client can subscribe to. The set is closed.
#[derive(Debug, Clone, Copy, PartialEq, Eq, Hash, Structural)]
pub enum SubscriptionID {
    WORKSPACE,
    WINDOW,
    SINKVOLUME,
    SOURCEVOLUME,
}

/// A decoded handshake record: the client's process id and the topic name it asks for.
pub struct SubscriptionInfo {
    pub pid: u32,
    pub name: String,
}

/// The wire name of each topic.
pub open spec fn topic_name(t: SubscriptionID) -> Seq<char> {
    match t {
        SubscriptionID::WORKSPACE => "workspace"@,
        SubscriptionID::WINDOW => "window"@,
        SubscriptionID::SINKVOLUME => "sink_volume"@,
        SubscriptionID::SOURCEVOLUME => "source_volume"@,
    }
}

/// The topic whose wire name is exactly `s`, if any.
pub open spec fn topic_named(s: Seq<char>) -> Option<SubscriptionID> {
    if s == topic_name(SubscriptionID::WORKSPACE) {
        Some(SubscriptionID::WORKSPACE)
    } else if s == topic_name(SubscriptionID::WINDOW) {
        Some(SubscriptionID::WINDOW)
    } else if s == topic_name(SubscriptionID::SINKVOLUME) {
        Some(SubscriptionID::SINKVOLUME)
    } else if s == topic_name(SubscriptionID::SOURCEVOLUME) {
        Some(SubscriptionID::SOURCEVOLUME)
    } else {
        None
    }
}

/// The numeric wire code of each topic, used by older clients.
pub open spec fn topic_code(t: SubscriptionID) -> u8 {
    match t {
        SubscriptionID::WORKSPACE => 0,
        SubscriptionID::WINDOW => 1,
        SubscriptionID::SINKVOLUME => 2,
        SubscriptionID::SOURCEVOLUME => 3,
    }
}

/// Distinct topics have distinct wire names.
pub proof fn lemma_topic_names_distinct(a: SubscriptionID, b: SubscriptionID)
    ensures
        topic_name(a) == topic_name(b) <==> a == b,
{
    reveal_strlit("workspace");
    reveal_strlit("window");
    reveal_strlit("sink_volume");
    reveal_strlit("source_volume");
    if a != b {
        assert(topic_name(a).len() != topic_name(b).len() || topic_name(a)[0] != topic_name(b)[0]
            || topic_name(a)[1] != topic_name(b)[1]);
    }
}

/// Reading back a topic's wire name gives the topic.
pub proof fn lemma_name_round_trip(t: SubscriptionID)
    ensures
        topic_named(topic_name(t)) == Some(t),
{
    lemma_topic_names_distinct(t, SubscriptionID::WORKSPACE);
    lemma_topic_names_distinct(t, SubscriptionID::WINDOW);
    lemma_topic_names_distinct(t, SubscriptionID::SINKVOLUME);
}

/// A name that maps to a topic is that topic's wire name.
pub proof fn lemma_named_is_name(s: Seq<char>)
    ensures
        topic_named(s) matches Some(t) ==> topic_name(t) == s,
{
}

impl SubscriptionID {
    /// Every topic, each once.
    pub fn all() -> (r: Vec<SubscriptionID>)
        ensures
            r@ == seq![
                SubscriptionID::WORKSPACE,
                SubscriptionID::WINDOW,
                SubscriptionID::SINKVOLUME,
                SubscriptionID::SOURCEVOLUME,
            ],
    {
        vec![
            SubscriptionID::WORKSPACE,
            SubscriptionID::WINDOW,
            SubscriptionID::SINKVOLUME,
            SubscriptionID::SOURCEVOLUME,
        ]
    }

    /// The wire name of this topic.
    pub fn name(&self) -> (r: &'static str)
        ensures
            r@ == topic_name(*self),
    {
        match self {
            SubscriptionID::WORKSPACE => "workspace",
            SubscriptionID::WINDOW => "window",
            SubscriptionID::SINKVOLUME => "sink_volume",
            SubscriptionID::SOURCEVOLUME => "source_volume",
        }
    }

    /// The topic whose wire name is exactly `name`; `None` for any other text.
    pub fn from_name(name: &str) -> (r: Option<SubscriptionID>)
        ensures
            r == topic_named(name@),
    {
        let s = name.to_owned();
        if s == "workspace".to_owned() {
            Some(SubscriptionID::WORKSPACE)
        } else if s == "window".to_owned() {
            Some(SubscriptionID::WINDOW)
        } else if s == "sink_volume".to_owned() {
            Some(SubscriptionID::SINKVOLUME)
        } else if s == "source_volume".to_owned() {
            Some(SubscriptionID::SOURCEVOLUME)
        } else {
            None
        }
    }

    /// The numeric wire code of this topic.
    pub fn code(&self) -> (r: u8)
        ensures
            r == topic_code(*self),
    {
        match self {
            SubscriptionID::WORKSPACE => 0,
            SubscriptionID::WINDOW => 1,
            SubscriptionID::SINKVOLUME => 2,
            SubscriptionID::SOURCEVOLUME => 3,
        }
    }

    /// The topic with numeric wire code `code`; `None` for an unknown code.
    pub fn from_code(code: u8) -> (r: Option<SubscriptionID>)
        ensures
            r matches Some(t) ==> topic_code(t) == code,
            r is None <==> code > 3,
    {
        match code {
            0 => Some(SubscriptionID::WORKSPACE),
            1 => Some(SubscriptionID::WINDOW),
            2 => Some(SubscriptionID::SINKVOLUME),
            3 => Some(SubscriptionID::SOURCEVOLUME),
            _ => None,
        }
    }
}

/// Returns a copy of `id` when it names one of the topics, and `None` otherwise.
pub fn validate_subscription_id(id: &String) -> (r: Option<String>)
    ensures
        topic_named(id@) is Some ==> (r matches Some(s) && s@ == id@),
        topic_named(id@) is None ==> r is None,
{
    match SubscriptionID::from_name(id.as_str()) {
        Some(_) => Some(id.clone()),
        None => None,
    }
}

} // verus!
