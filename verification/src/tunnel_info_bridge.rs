//! Reporting the state, the log and the traffic of tunnels to an optional listener.

use vstd::prelude::*;

verus! {

/// What a report is about.
#[derive(Clone, Copy, Debug, PartialEq, Eq, Structural)]
pub enum TunnelInfoType {
    TunnelState,
    TunnelLog,
    TunnelTraffic,
}

/// A report.
pub struct TunnelInfo<T> {
    pub info_type: TunnelInfoType,
    pub data: Box<T>,
}

impl<T> TunnelInfo<T> {
    /// A report of the given kind.
    pub fn new(info_type: TunnelInfoType, data: Box<T>) -> (r: TunnelInfo<T>)
        ensures
            r.info_type == info_type,
            r.data == data,
    {
        TunnelInfo { info_type, data }
    }
}

/// Where reports go, if anywhere.
pub struct TunnelInfoBridge<L> {
    listener: Option<L>,
}

impl<L> TunnelInfoBridge<L> {
    pub closed spec fn listener(self) -> Option<L> {
        self.listener
    }

    /// Reports go nowhere.
    pub fn new() -> (r: TunnelInfoBridge<L>)
        ensures
            r.listener() is None,
    {
        TunnelInfoBridge { listener: None }
    }

    /// Has reports go to a listener, in place of any earlier one.
    pub fn set_listener(&mut self, listener: L)
        ensures
            final(self).listener() == Some(listener),
    {
        self.listener = Some(listener);
    }

    /// Whether reports go anywhere.
    pub fn has_listener(&self) -> (r: bool)
        ensures
            r == self.listener() is Some,
    {
        self.listener.is_some()
    }

    /// The listener to call with a report, where there is a listener and the report could be
    /// written down.
    pub fn post_tunnel_info(&self, written: bool) -> (r: Option<&L>)
        ensures
            written && self.listener() is Some ==> r == Some(&self.listener()->0),
            !written || self.listener() is None ==> r is None,
    {
        if written {
            self.listener.as_ref()
        } else {
            None
        }
    }
}

} // verus!
