//! Toplevel windows listed by the compositor.

use vstd::prelude::*;

use wayland_protocols::ext::foreign_toplevel_list::v1::client::ext_foreign_toplevel_handle_v1::ExtForeignToplevelHandleV1;

verus! {

#[verifier::external_type_specification]
#[verifier::external_body]
pub struct ExExtForeignToplevelHandleV1(ExtForeignToplevelHandleV1);

/// `Clone` of the toplevel handle (derived by the protocol code generator),
/// which the derived `Clone` of [TopLevel] calls. Nothing is claimed of the
/// copy.
pub assume_specification[ <ExtForeignToplevelHandleV1 as Clone>::clone ](
    h: &ExtForeignToplevelHandleV1,
) -> ExtForeignToplevelHandleV1;

/// A toplevel window and what the compositor told of it.
#[derive(Debug, Clone)]
pub struct TopLevel {
    pub handle: ExtForeignToplevelHandleV1,
    pub title: String,
    pub app_id: String,
    pub identifier: String,
    pub active: bool,
}

impl TopLevel {
    /// A toplevel with empty title, application id and identifier, active.
    pub fn new(handle: ExtForeignToplevelHandleV1) -> (r: Self)
        ensures
            r.handle == handle,
            r.title@ == Seq::<char>::empty(),
            r.app_id@ == Seq::<char>::empty(),
            r.identifier@ == Seq::<char>::empty(),
            r.active,
    {
        TopLevel {
            handle,
            title: String::new(),
            app_id: String::new(),
            identifier: String::new(),
            active: true,
        }
    }

    /// The application id and the title, separated by a space.
    pub fn id_and_title(&self) -> (s: String)
        ensures
            s@ == self.app_id@ + seq![' '] + self.title@,
    {
        proof {
            reveal_strlit(" ");
        }
        let mut s = String::new();
        s.append(self.app_id.as_str());
        s.append(" ");
        s.append(self.title.as_str());
        assert(s@ =~= self.app_id@ + seq![' '] + self.title@);
        s
    }
}

impl AsRef<ExtForeignToplevelHandleV1> for TopLevel {
    fn as_ref(&self) -> (r: &ExtForeignToplevelHandleV1)
        ensures
            *r == self.handle,
    {
        &self.handle
    }
}

} // verus!
