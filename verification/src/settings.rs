//! The switches of the interaction surface, and how one switch carries
//! others with it.

use vstd::prelude::*;

verus! {

/// What the user may do to nodes and edges.
#[derive(Clone, Copy, Debug, PartialEq, Eq, Structural)]
pub struct InteractionSettings {
    pub dragging_enabled: bool,
    pub node_clicking_enabled: bool,
    pub node_selection_enabled: bool,
    pub node_selection_multi_enabled: bool,
    pub edge_clicking_enabled: bool,
    pub edge_selection_enabled: bool,
    pub edge_selection_multi_enabled: bool,
}

impl InteractionSettings {
    /// Everything is allowed.
    pub fn all_enabled() -> (s: InteractionSettings)
        ensures
            s == (InteractionSettings {
                dragging_enabled: true,
                node_clicking_enabled: true,
                node_selection_enabled: true,
                node_selection_multi_enabled: true,
                edge_clicking_enabled: true,
                edge_selection_enabled: true,
                edge_selection_multi_enabled: true,
            }),
    {
        InteractionSettings {
            dragging_enabled: true,
            node_clicking_enabled: true,
            node_selection_enabled: true,
            node_selection_multi_enabled: true,
            edge_clicking_enabled: true,
            edge_selection_enabled: true,
            edge_selection_multi_enabled: true,
        }
    }

    /// Dragging was switched: nodes that can be dragged can be clicked.
    pub fn dragging_changed(&mut self)
        ensures
            *final(self) == (InteractionSettings {
                node_clicking_enabled: old(self).node_clicking_enabled || old(self).dragging_enabled,
                ..*old(self)
            }),
    {
        if self.dragging_enabled {
            self.node_clicking_enabled = true;
        }
    }

    /// Selection of nodes was switched: nodes that can be selected can be
    /// clicked.
    pub fn node_selection_changed(&mut self)
        ensures
            *final(self) == (InteractionSettings {
                node_clicking_enabled: old(self).node_clicking_enabled || old(self).node_selection_enabled,
                ..*old(self)
            }),
    {
        if self.node_selection_enabled {
            self.node_clicking_enabled = true;
        }
    }

    /// Selection of several nodes was switched: it needs selection of one
    /// node, and clicking.
    pub fn node_selection_multi_changed(&mut self)
        ensures
            *final(self) == (InteractionSettings {
                node_clicking_enabled: old(self).node_clicking_enabled || old(
                    self,
                ).node_selection_multi_enabled,
                node_selection_enabled: old(self).node_selection_enabled || old(
                    self,
                ).node_selection_multi_enabled,
                ..*old(self)
            }),
    {
        if self.node_selection_multi_enabled {
            self.node_clicking_enabled = true;
            self.node_selection_enabled = true;
        }
    }

    /// Selection of edges was switched: edges that can be selected can be
    /// clicked.
    pub fn edge_selection_changed(&mut self)
        ensures
            *final(self) == (InteractionSettings {
                edge_clicking_enabled: old(self).edge_clicking_enabled || old(self).edge_selection_enabled,
                ..*old(self)
            }),
    {
        if self.edge_selection_enabled {
            self.edge_clicking_enabled = true;
        }
    }

    /// Selection of several edges was switched: it needs selection of one
    /// edge, and clicking.
    pub fn edge_selection_multi_changed(&mut self)
        ensures
            *final(self) == (InteractionSettings {
                edge_clicking_enabled: old(self).edge_clicking_enabled || old(
                    self,
                ).edge_selection_multi_enabled,
                edge_selection_enabled: old(self).edge_selection_enabled || old(
                    self,
                ).edge_selection_multi_enabled,
                ..*old(self)
            }),
    {
        if self.edge_selection_multi_enabled {
            self.edge_clicking_enabled = true;
            self.edge_selection_enabled = true;
        }
    }

    /// Whether the user may switch clicking of nodes: not while dragging or
    /// selection needs it.
    pub fn node_clicking_editable(&self) -> (editable: bool)
        ensures
            editable == !(self.dragging_enabled || self.node_selection_enabled
                || self.node_selection_multi_enabled),
    {
        !(self.dragging_enabled || self.node_selection_enabled || self.node_selection_multi_enabled)
    }

    /// Whether the user may switch selection of one node: not while
    /// selection of several needs it.
    pub fn node_selection_editable(&self) -> (editable: bool)
        ensures
            editable == !self.node_selection_multi_enabled,
    {
        !self.node_selection_multi_enabled
    }

    /// Whether the user may switch clicking of edges: not while selection
    /// needs it.
    pub fn edge_clicking_editable(&self) -> (editable: bool)
        ensures
            editable == !(self.edge_selection_enabled || self.edge_selection_multi_enabled),
    {
        !(self.edge_selection_enabled || self.edge_selection_multi_enabled)
    }

    /// Whether the user may switch selection of one edge: not while
    /// selection of several needs it.
    pub fn edge_selection_editable(&self) -> (editable: bool)
        ensures
            editable == !self.edge_selection_multi_enabled,
    {
        !self.edge_selection_multi_enabled
    }
}

/// How the user moves about the drawing.
#[derive(Clone, Copy, Debug, PartialEq, Eq, Structural)]
pub struct NavigationSettings {
    pub fit_to_screen: bool,
    pub zoom_and_pan: bool,
}

impl NavigationSettings {
    /// Fitting to the screen was switched: a drawing that is fitted to the
    /// screen cannot be zoomed or panned.
    pub fn fit_to_screen_changed(&mut self)
        ensures
            final(self).fit_to_screen == old(self).fit_to_screen,
            final(self).zoom_and_pan == (old(self).zoom_and_pan && !old(self).fit_to_screen),
    {
        if self.fit_to_screen {
            self.zoom_and_pan = false;
        }
    }
}

/// What the selection lets the user edit.
#[derive(Clone, Copy, Debug, PartialEq, Eq, Structural)]
pub enum Focus {
    /// One node and no edge is selected.
    Node(u32),
    /// One edge and no node is selected.
    Edge(u32),
    /// More than one element is selected.
    TooMany,
    /// Nothing is selected.
    Nothing,
}

/// What the selection of `nodes` and `edges` lets the user edit.
pub open spec fn focus_of(nodes: Seq<u32>, edges: Seq<u32>) -> Focus {
    if nodes.len() == 1 && edges.len() == 0 {
        Focus::Node(nodes[0])
    } else if edges.len() == 1 && nodes.len() == 0 {
        Focus::Edge(edges[0])
    } else if nodes.len() + edges.len() > 1 {
        Focus::TooMany
    } else {
        Focus::Nothing
    }
}

/// What the selection of `nodes` and `edges` lets the user edit.
pub fn focus(nodes: &Vec<u32>, edges: &Vec<u32>) -> (f: Focus)
    ensures
        f == focus_of(nodes@, edges@),
{
    if nodes.len() == 1 && edges.len() == 0 {
        Focus::Node(nodes[0])
    } else if edges.len() == 1 && nodes.len() == 0 {
        Focus::Edge(edges[0])
    } else if nodes.len() > 1 || edges.len() > 1 || (nodes.len() > 0 && edges.len() > 0) {
        Focus::TooMany
    } else {
        Focus::Nothing
    }
}

} // verus!
