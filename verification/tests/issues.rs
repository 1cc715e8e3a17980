use validator::issues::{Issue, IssueType, ObjectType, Severity};

#[test]
fn new_issue_is_bare() {
    let issue = Issue::new(Severity::Error, IssueType::DuplicateObjectId, "stop5").object_type(ObjectType::Stop);
    assert_eq!("stop5", issue.object_id);
    assert_eq!(Some(ObjectType::Stop), issue.object_type);
    assert_eq!(None, issue.object_name);
    assert!(issue.related_objects.is_empty());
    assert_eq!(None, issue.details);
}

#[test]
fn issue_types_are_numbered_in_order() {
    assert_eq!(0, IssueType::UnusedStop.index());
    assert_eq!(39, IssueType::NoShape.index());
    assert_eq!(Some(IssueType::InvalidReference), IssueType::from_index(6));
    assert_eq!(None, IssueType::from_index(40));
}
