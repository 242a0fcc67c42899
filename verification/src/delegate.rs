//! What the system asks of the app as a whole.

use crate::files::Opened;
use crate::state::{EditorView, Effect, Task};
use vstd::prelude::*;

verus! {

/// Holds the view, so that documents the system opens can be routed to it.
pub struct DelegateIvars {
    pub view: EditorView,
}

impl DelegateIvars {
    /// A document that the system hands over: documents opened from outside
    /// arrive here, not as arguments of the program. See
    /// [`load_path`](EditorView::load_path). The title is written too, or a
    /// freshly launched window would say "Untitled" over somebody's file.
    pub fn open_file(
        &mut self,
        place: &str,
        key: &str,
        folder: Option<String>,
        found: Opened,
        limit: &str,
        now: u64,
    ) -> (opened: bool)
        requires
            old(self).view.state.wf(),
            found matches Opened::File(buffer) ==> buffer.wf(),
        ensures
            opened,
            final(self).view.state.wf(),
            exists|open: EditorView|
                {
                    &&& #[trigger] open.opens_path(
                        old(self).view,
                        folder,
                        place@,
                        key@,
                        found,
                        limit@,
                        now,
                    )
                    &&& final(self).view.shows(
                        open,
                        open.state,
                        seq![Effect::SyncTitle, Effect::Run(Task::Reparse)],
                        now,
                    )
                },
    {
        let opened = self.view.load_path(place, key, folder, found, limit, now);
        let ghost open = self.view;
        assert(open.opens_path(old(self).view, folder, place@, key@, found, limit@, now));
        self.view.effects.push(Effect::SyncTitle);
        self.view.effects.push(Effect::Run(Task::Reparse));
        let ghost done = seq![Effect::SyncTitle, Effect::Run(Task::Reparse)];
        assert(self.view.effects@ =~= open.effects@ + done);
        self.view.show(now);
        assert(self.view.effects@ =~= open.effects@ + (done + open.pumping(now)));
        opened
    }

    /// One window, and closing it means you are done.
    pub fn should_terminate_after_close(&self) -> (r: bool)
        ensures
            r,
    {
        true
    }
}

} // verus!
