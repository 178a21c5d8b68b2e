//! The list of serial ports offered to the user.
use vstd::prelude::*;

verus! {

/// A serial port found on the machine; USB ports carry their identifiers.
#[derive(Debug, Clone)]
pub struct PortInfo {
    pub name: String,
    pub serial_number: Option<String>,
    pub pid: u16,
    pub vid: u16,
    pub manufacturer: Option<String>,
}

/// State of the dialog that lists the available ports.
#[derive(Debug, Clone)]
pub struct PortListDialog {
    pub is_visible: bool,
    pub ports: Vec<PortInfo>,
    pub selected_port: Option<String>,
    pub is_loading: bool,
}

impl PortListDialog {
    /// Hidden, with no ports and nothing selected.
    pub fn new() -> (r: PortListDialog)
        ensures
            !r.is_visible,
            r.ports@.len() == 0,
            r.selected_port is None,
            !r.is_loading,
    {
        PortListDialog { is_visible: false, ports: Vec::new(), selected_port: None, is_loading: false }
    }

    pub fn show(&mut self)
        ensures
            final(self).is_visible,
            final(self).ports == old(self).ports,
            final(self).selected_port == old(self).selected_port,
            final(self).is_loading == old(self).is_loading,
    {
        self.is_visible = true;
    }

    pub fn dismiss(&mut self)
        ensures
            !final(self).is_visible,
            final(self).ports == old(self).ports,
            final(self).selected_port == old(self).selected_port,
            final(self).is_loading == old(self).is_loading,
    {
        self.is_visible = false;
    }

    /// Forgets the listed ports and waits for a new list.
    pub fn refresh(&mut self)
        ensures
            final(self).is_loading,
            final(self).ports@.len() == 0,
            final(self).is_visible == old(self).is_visible,
            final(self).selected_port == old(self).selected_port,
    {
        self.is_loading = true;
        self.ports.clear();
    }

    /// Takes the new list; loading is over.
    pub fn set_ports(&mut self, ports: Vec<PortInfo>)
        ensures
            !final(self).is_loading,
            final(self).ports == ports,
            final(self).is_visible == old(self).is_visible,
            final(self).selected_port == old(self).selected_port,
    {
        self.ports = ports;
        self.is_loading = false;
    }
}

} // verus!
