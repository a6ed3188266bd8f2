use tuisana::dataset::{dataset_from_fetched, merge_definitions, FetchedNode, FetchedProject, Placement};
use tuisana::records::{CustomFieldDefinition, FetchedTask, FetchedUser, FetchedValue, Section};

fn fetched(gid: &str, name: &str, section: Option<(&str, &str)>) -> FetchedTask {
    FetchedTask {
        gid: gid.to_string(),
        name: name.to_string(),
        completed: false,
        modified_at: None,
        assignee: None,
        due_on: None,
        start_on: None,
        num_subtasks: 0,
        membership_sections: match section {
            Some((g, n)) => vec![Some(Section { gid: g.to_string(), name: n.to_string() })],
            None => Vec::new(),
        },
        custom_fields: Vec::new(),
    }
}

fn node(task: FetchedTask, depth: usize) -> FetchedNode {
    FetchedNode { task, depth, placement: None }
}

fn def(gid: &str, name: &str) -> CustomFieldDefinition {
    CustomFieldDefinition { gid: gid.to_string(), name: name.to_string() }
}

fn inbox(nodes: Vec<FetchedNode>, fields: Vec<CustomFieldDefinition>) -> FetchedProject {
    FetchedProject {
        id: "p1".to_string(),
        name: "Inbox".to_string(),
        sections: vec![Section { gid: "s1".to_string(), name: "Today".to_string() }],
        fields,
        nodes,
    }
}

#[test]
fn loads_subtasks_for_project_tasks_even_when_they_are_not_project_members() {
    let mut parent = fetched("t1", "Parent task", Some(("s1", "Today")));
    parent.num_subtasks = 1;
    parent.custom_fields = vec![FetchedValue { gid: "cf1".to_string(), display_value: Some("High".to_string()), enum_name: None }];
    let mut child = fetched("t2", "Child task", None);
    child.due_on = Some("2026-06-01".to_string());
    child.start_on = Some("2026-05-28".to_string());
    child.assignee = Some(FetchedUser { gid: "user-1".to_string(), name: Some("Alex".to_string()), display_name: Some("Alex".to_string()) });
    child.custom_fields = vec![FetchedValue { gid: "cf1".to_string(), display_value: Some("Low".to_string()), enum_name: Some("Low".to_string()) }];

    let dataset = dataset_from_fetched(&vec![inbox(vec![node(parent, 0), node(child, 1)], Vec::new())]);

    let task_rows: Vec<(String, usize)> = dataset.records.iter().map(|r| (r.name.clone(), r.subtask_depth)).collect();
    assert_eq!(task_rows, vec![("Parent task".to_string(), 0), ("Child task".to_string(), 1)]);
    assert_eq!(dataset.records.len(), 2);
    // The child is filed where its parent is, under the parent.
    assert_eq!(dataset.records[1].parent_gid, Some("t1".to_string()));
    assert_eq!(dataset.records[1].sections, vec!["Today".to_string()]);
    assert_eq!(dataset.records[1].section_order, Some(0));
    assert_eq!(dataset.records[1].project_gids, vec!["p1".to_string()]);
    assert_eq!(dataset.records[1].assignee, Some("Alex".to_string()));
}

#[test]
fn records_are_numbered_in_the_order_fetched_across_projects() {
    let p1 = inbox(vec![node(fetched("t1", "One", None), 0), node(fetched("t1a", "One-a", None), 1), node(fetched("t2", "Two", None), 0)], Vec::new());
    let placed = FetchedNode {
        task: fetched("t3", "Three", None),
        depth: 0,
        placement: Some(Placement { project_gid: "p9".to_string(), project: "Elsewhere".to_string(), section: Some("Later".to_string()) }),
    };
    let loose = node(fetched("t4", "Four", None), 0);
    let me = FetchedProject { id: "me".to_string(), name: "Assigned to me".to_string(), sections: Vec::new(), fields: Vec::new(), nodes: vec![placed, loose] };
    let dataset = dataset_from_fetched(&vec![p1, me]);

    let orders: Vec<usize> = dataset.records.iter().map(|r| r.natural_order).collect();
    assert_eq!(orders, vec![0, 1, 2, 3, 4]);
    assert_eq!(dataset.records[2].parent_gid, None);
    assert_eq!(dataset.records[2].subtask_depth, 0);
    // A placed task is filed under the project the placement names.
    assert_eq!(dataset.records[3].project_gids, vec!["p9".to_string()]);
    assert_eq!(dataset.records[3].projects, vec!["Elsewhere".to_string()]);
    assert_eq!(dataset.records[3].sections, vec!["Later".to_string()]);
    // One with no placement stays in the row it came from.
    assert_eq!(dataset.records[4].project_gids, vec!["me".to_string()]);
}

#[test]
fn definitions_keep_the_first_of_each_id_ordered_by_name_then_id() {
    let p1 = inbox(Vec::new(), vec![def("cf2", "Tag"), def("cf1", "Priority")]);
    let mut p2 = inbox(Vec::new(), vec![def("cf1", "Renamed"), def("cf0", "Tag")]);
    p2.id = "p2".to_string();
    let dataset = dataset_from_fetched(&vec![p1, p2]);
    let got: Vec<(String, String)> = dataset.custom_field_definitions.iter().map(|d| (d.gid.clone(), d.name.clone())).collect();
    assert_eq!(
        got,
        vec![
            ("cf1".to_string(), "Priority".to_string()),
            ("cf0".to_string(), "Tag".to_string()),
            ("cf2".to_string(), "Tag".to_string()),
        ]
    );
    let merged = merge_definitions(&vec![def("b", "X"), def("a", "X"), def("b", "Y")]);
    assert_eq!(merged.iter().map(|d| d.gid.clone()).collect::<Vec<_>>(), vec!["a".to_string(), "b".to_string()]);
}

#[test]
fn no_projects_make_an_empty_dataset() {
    let dataset = dataset_from_fetched(&Vec::new());
    assert!(dataset.records.is_empty());
    assert!(dataset.custom_field_definitions.is_empty());
}
