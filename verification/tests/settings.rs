use graph_state::settings::focus;
use graph_state::settings::Focus;
use graph_state::settings::InteractionSettings;
use graph_state::settings::NavigationSettings;

fn none() -> InteractionSettings {
    InteractionSettings {
        dragging_enabled: false,
        node_clicking_enabled: false,
        node_selection_enabled: false,
        node_selection_multi_enabled: false,
        edge_clicking_enabled: false,
        edge_selection_enabled: false,
        edge_selection_multi_enabled: false,
    }
}

#[test]
fn dragging_carries_clicking() {
    let mut s = none();
    s.dragging_changed();
    assert_eq!(s, none());
    s.dragging_enabled = true;
    s.dragging_changed();
    assert_eq!(s, InteractionSettings { dragging_enabled: true, node_clicking_enabled: true, ..none() });
    assert!(!s.node_clicking_editable());
    s.dragging_enabled = false;
    s.dragging_changed();
    assert!(s.node_clicking_enabled);
    assert!(s.node_clicking_editable());
}

#[test]
fn selection_of_several_carries_selection_of_one() {
    let mut s = none();
    s.node_selection_multi_enabled = true;
    s.node_selection_multi_changed();
    assert_eq!(
        s,
        InteractionSettings {
            node_clicking_enabled: true,
            node_selection_enabled: true,
            node_selection_multi_enabled: true,
            ..none()
        }
    );
    assert!(!s.node_selection_editable());
    let mut s = none();
    s.node_selection_enabled = true;
    s.node_selection_changed();
    assert_eq!(s, InteractionSettings { node_clicking_enabled: true, node_selection_enabled: true, ..none() });
    assert!(s.node_selection_editable());
    let mut s = none();
    s.edge_selection_multi_enabled = true;
    s.edge_selection_multi_changed();
    assert_eq!(
        s,
        InteractionSettings {
            edge_clicking_enabled: true,
            edge_selection_enabled: true,
            edge_selection_multi_enabled: true,
            ..none()
        }
    );
    assert!(!s.edge_selection_editable());
    assert!(!s.edge_clicking_editable());
    let mut s = none();
    s.edge_selection_enabled = true;
    s.edge_selection_changed();
    assert_eq!(s, InteractionSettings { edge_clicking_enabled: true, edge_selection_enabled: true, ..none() });
    assert!(s.edge_selection_editable());
    assert!(none().edge_clicking_editable());
    assert!(InteractionSettings::all_enabled().dragging_enabled);
}

#[test]
fn fitting_to_the_screen_switches_zoom_off() {
    let mut n = NavigationSettings { fit_to_screen: true, zoom_and_pan: true };
    n.fit_to_screen_changed();
    assert_eq!(n, NavigationSettings { fit_to_screen: true, zoom_and_pan: false });
    let mut n = NavigationSettings { fit_to_screen: false, zoom_and_pan: true };
    n.fit_to_screen_changed();
    assert_eq!(n, NavigationSettings { fit_to_screen: false, zoom_and_pan: true });
}

#[test]
fn the_selection_says_what_can_be_edited() {
    assert_eq!(focus(&vec![4], &vec![]), Focus::Node(4));
    assert_eq!(focus(&vec![], &vec![6]), Focus::Edge(6));
    assert_eq!(focus(&vec![1, 2], &vec![]), Focus::TooMany);
    assert_eq!(focus(&vec![], &vec![1, 2]), Focus::TooMany);
    assert_eq!(focus(&vec![1], &vec![2]), Focus::TooMany);
    assert_eq!(focus(&vec![], &vec![]), Focus::Nothing);
}
