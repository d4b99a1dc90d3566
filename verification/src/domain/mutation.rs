//! Planning the addition of a single topic.
use vstd::prelude::*;
use crate::domain::diff::{Diff, DiffEvent};
use crate::domain::path::TopicPath;
use crate::domain::topic::Topic;

verus! {

/// Plans topic edits before anything is written.
pub struct MutationPlanner;

/// A request to add a topic titled `title` with id `new_topic_id` under `parent`, whose
/// path is `parent_path`.
pub struct AddTopicRequest<'a> {
    pub parent: &'a Topic,
    pub parent_path: &'a TopicPath,
    pub title: &'a str,
    pub new_topic_id: &'a str,
}

/// The planned addition: where the topic goes and the diff that describes it.
pub struct AddTopicPlan {
    pub parent_id: String,
    pub new_topic_id: String,
    pub created_path: TopicPath,
    pub title: String,
    pub diff: Diff,
}

impl MutationPlanner {
    /// Plans adding a child titled `request.title` under `request.parent`: the new topic's
    /// path is the parent's path followed by the title, and the diff is one `Added` event
    /// for that path.
    pub fn plan_add_topic(request: AddTopicRequest<'_>) -> (r: AddTopicPlan)
        ensures
            r.parent_id@ == request.parent.id.0@,
            r.new_topic_id@ == request.new_topic_id@,
            r.created_path@ == request.parent_path@.push(request.title@),
            r.title@ == request.title@,
            r.diff@.len() == 1,
            r.diff@[0] matches DiffEvent::Added { path } && path@ == r.created_path@,
    {
        let created_path = request.parent_path.join(request.title.to_owned());
        let mut events: Vec<DiffEvent> = Vec::new();
        events.push(DiffEvent::Added { path: created_path.duplicate() });
        let diff = Diff::from_events(events);
        AddTopicPlan {
            parent_id: request.parent.id.0.clone(),
            new_topic_id: request.new_topic_id.to_owned(),
            created_path,
            title: request.title.to_owned(),
            diff,
        }
    }
}

} // verus!
