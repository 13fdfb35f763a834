//! The archive and settings state behind the viewer's panels, and the
//! decisions the panels make on it.

use vstd::prelude::*;
use crate::keys::{KeyBindings, KeyCode, MouseButton};
use crate::recent::RecentFileSource;
use crate::text::{ascii_lower, chars_of, lower_seq, string_from_chars};
use crate::paths::{normalize_path, normalized};
use crate::nif::{as_ints, build_hierarchy, key_positions, linked_positions, object_keys, NifObject, NifObjectInfo};
use crate::view::{ViewOptions, ViewState};
use crate::files::FSState;
use crate::keys::{decimal, key_code_name, key_name, mouse_button_name, mouse_name};

verus! {

/// Progress and failure of the archive being opened.
pub struct ArchiveLoadStatus {
    pub phase: Option<String>,
    pub error: Option<String>,
}

/// Progress and outcome of an archive upload.
pub struct UploadStatus {
    pub phase: Option<String>,
    pub error: Option<String>,
    pub success: Option<String>,
    pub download_url: Option<String>,
}

/// Views of an optional string.
pub open spec fn opt_view(s: Option<String>) -> Option<Seq<char>> {
    match s {
        Some(t) => Some(t@),
        None => None,
    }
}

/// Which archive is open and which of its files is shown or waiting to be shown.
pub struct ArchiveState {
    pub show_zip_popup: bool,
    pub zip_url_input: String,
    pub recent_source: RecentFileSource,
    pub selected_file: Option<String>,
    pub file_search_query: String,
    pub pending_file: Option<String>,
    pub nif_load_error: Option<String>,
}

/// A file name that ends in `.nif`, in any case.
pub open spec fn is_nif_name(name: Seq<char>) -> bool {
    name.len() >= 4 && lower_seq(name.skip(name.len() - 4)) == seq!['.', 'n', 'i', 'f']
}

/// Whether a file name ends in `.nif`, in any case.
pub fn is_nif_file(name: &str) -> (r: bool)
    ensures
        r == is_nif_name(name@),
{
    let c = chars_of(name);
    let n = c.len();
    if n < 4 {
        return false;
    }
    let ghost tail = lower_seq(c@.skip(n as int - 4));
    assert(tail[0] == ascii_lower(c@[n - 4]));
    assert(tail[1] == ascii_lower(c@[n - 3]));
    assert(tail[2] == ascii_lower(c@[n - 2]));
    assert(tail[3] == ascii_lower(c@[n - 1]));
    let r = c[n - 4] == '.' && (c[n - 3] == 'n' || c[n - 3] == 'N') && (c[n - 2] == 'i' || c[n - 2]
        == 'I') && (c[n - 1] == 'f' || c[n - 1] == 'F');
    if r {
        assert(tail =~= seq!['.', 'n', 'i', 'f']);
    }
    r
}

fn str_eq(a: &String, b: &String) -> (r: bool)
    ensures
        r == (a@ == b@),
{
    *a == *b
}

fn copy_opt(s: &Option<String>) -> (r: Option<String>)
    ensures
        opt_view(r) == opt_view(*s),
{
    match s {
        Some(t) => Some(t.clone()),
        None => None,
    }
}

/// The literal text of a status message.
fn text(s: &str) -> (r: String)
    ensures
        r@ == s@,
{
    s.to_owned()
}

impl ArchiveState {
    /// The error shown to the user: a NIF load error first, then an archive
    /// error, then an upload error.
    pub fn current_error(&self, archive_error: &Option<String>, upload_error: &Option<String>) -> (r:
        Option<String>)
        ensures
            opt_view(r) == (match opt_view(self.nif_load_error) {
                Some(e) => Some(e),
                None => match opt_view(*archive_error) {
                    Some(e) => Some(e),
                    None => opt_view(*upload_error),
                },
            }),
    {
        match &self.nif_load_error {
            Some(e) => Some(e.clone()),
            None => match archive_error {
                Some(e) => Some(e.clone()),
                None => copy_opt(upload_error),
            },
        }
    }

    /// Closing the error window clears every pending error.
    pub fn dismiss_errors(&mut self, load: &mut ArchiveLoadStatus, upload: &mut UploadStatus)
        ensures
            final(self).nif_load_error is None,
            final(load).error is None,
            final(upload).error is None,
            final(load).phase == old(load).phase,
            final(upload).phase == old(upload).phase,
            final(upload).success == old(upload).success,
            final(upload).download_url == old(upload).download_url,
            final(self).pending_file == old(self).pending_file,
            final(self).selected_file == old(self).selected_file,
            final(self).zip_url_input == old(self).zip_url_input,
            final(self).show_zip_popup == old(self).show_zip_popup,
            final(self).recent_source == old(self).recent_source,
            final(self).file_search_query == old(self).file_search_query,
    {
        self.nif_load_error = None;
        load.error = None;
        upload.error = None;
    }

    /// Takes over what the file picker delivered: its archive source, its
    /// recent-file source, and the file to show (selected and pending).
    /// Gives whether an archive source was delivered.
    pub fn apply_picked(
        &mut self,
        picked_file: Option<String>,
        picked_source: Option<String>,
        picked_recent_source: Option<RecentFileSource>,
    ) -> (r: bool)
        ensures
            r == picked_source is Some,
            final(self).zip_url_input@ == (match picked_source {
                Some(s) => s@,
                None => old(self).zip_url_input@,
            }),
            final(self).recent_source == (match picked_recent_source {
                Some(s) => s,
                None => old(self).recent_source,
            }),
            opt_view(final(self).selected_file) == (match picked_file {
                Some(f) => Some(f@),
                None => opt_view(old(self).selected_file),
            }),
            opt_view(final(self).pending_file) == (match picked_file {
                Some(f) => Some(f@),
                None => opt_view(old(self).pending_file),
            }),
            final(self).nif_load_error == old(self).nif_load_error,
            final(self).show_zip_popup == old(self).show_zip_popup,
            final(self).file_search_query == old(self).file_search_query,
    {
        let has_picked_source = picked_source.is_some();
        if let Some(source) = picked_source {
            self.zip_url_input = source;
        }
        if let Some(source) = picked_recent_source {
            self.recent_source = source;
        }
        if let Some(file_name) = picked_file {
            self.selected_file = Some(file_name.clone());
            self.pending_file = Some(file_name);
        }
        has_picked_source
    }

    /// Once the archive holds the pending file and it is a NIF, it becomes the
    /// selected file and is handed back for loading; otherwise nothing changes.
    pub fn take_pending_nif(&mut self, file_names: &Vec<String>) -> (r: Option<String>)
        ensures
            match opt_view(old(self).pending_file) {
                Some(p) => if file_names@.map_values(|f: String| f@).contains(p) && is_nif_name(p) {
                    &&& r matches Some(f) && f@ == p
                    &&& final(self).pending_file is None
                    &&& opt_view(final(self).selected_file) == Some(p)
                } else {
                    &&& r is None
                    &&& opt_view(final(self).pending_file) == Some(p)
                    &&& opt_view(final(self).selected_file) == opt_view(old(self).selected_file)
                },
                None => r is None && final(self).pending_file is None
                    && opt_view(final(self).selected_file) == opt_view(old(self).selected_file),
            },
            final(self).zip_url_input == old(self).zip_url_input,
            final(self).show_zip_popup == old(self).show_zip_popup,
            final(self).recent_source == old(self).recent_source,
            final(self).file_search_query == old(self).file_search_query,
            final(self).nif_load_error == old(self).nif_load_error,
    {
        let file_name = match &self.pending_file {
            Some(f) => f.clone(),
            None => return None,
        };
        let ghost names = file_names@.map_values(|f: String| f@);
        let mut found = false;
        let mut i: usize = 0;
        while i < file_names.len()
            invariant
                i <= file_names.len(),
                names == file_names@.map_values(|f: String| f@),
                found == (exists|k: int| 0 <= k < i && names[k] == file_name@),
            decreases file_names.len() - i,
        {
            if str_eq(&file_names[i], &file_name) {
                found = true;
            }
            assert(names[i as int] == file_names@[i as int]@);
            i += 1;
        }
        assert(found == names.contains(file_name@));
        if !found || !is_nif_file(file_name.as_str()) {
            return None;
        }
        self.pending_file = None;
        self.selected_file = Some(file_name.clone());
        Some(file_name)
    }

    /// Starts downloading an archive from a URL: the input shows the URL, the
    /// source becomes a URL, nothing is selected, the pending file is kept in
    /// normalized form, the archive shown so far is closed (the resource
    /// folders stay), and the status says the download is being prepared.
    pub fn begin_url_load(
        &mut self,
        status: &mut ArchiveLoadStatus,
        fsstate: &mut FSState,
        zip_url: String,
        pending_file: Option<String>,
    )
        requires
            old(fsstate).wf(),
        ensures
            final(self).zip_url_input@ == zip_url@,
            final(self).recent_source == RecentFileSource::Url,
            final(self).selected_file is None,
            opt_view(final(self).pending_file) == (match pending_file {
                Some(f) => Some(normalized(f@)),
                None => None,
            }),
            opt_view(final(status).phase) == Some("Preparing download..."@),
            final(status).error is None,
            final(self).nif_load_error == old(self).nif_load_error,
            final(fsstate).wf(),
            final(fsstate).file_system is None,
            final(fsstate).resource_file_systems@ == old(fsstate).resource_file_systems@,
            final(self).show_zip_popup == old(self).show_zip_popup,
            final(self).file_search_query == old(self).file_search_query,
    {
        let pending = match pending_file {
            Some(f) => Some(normalize_path(f.as_str())),
            None => None,
        };
        self.zip_url_input = zip_url;
        self.recent_source = RecentFileSource::Url;
        self.selected_file = None;
        self.pending_file = pending;
        fsstate.file_system = None;
        status.phase = Some(text("Preparing download..."));
        status.error = None;
    }

    /// Starts opening a local archive: the input shows its path, nothing is
    /// selected, and the status says the archive is being opened.
    pub fn begin_local_load(&mut self, status: &mut ArchiveLoadStatus, archive_path: String)
        ensures
            final(self).zip_url_input@ == archive_path@,
            final(self).selected_file is None,
            final(self).pending_file == old(self).pending_file,
            opt_view(final(status).phase) == Some("Opening archive..."@),
            final(status).error is None,
            final(self).show_zip_popup == old(self).show_zip_popup,
            final(self).file_search_query == old(self).file_search_query,
            final(self).recent_source == old(self).recent_source,
            final(self).nif_load_error == old(self).nif_load_error,
    {
        self.zip_url_input = archive_path;
        self.selected_file = None;
        status.phase = Some(text("Opening archive..."));
        status.error = None;
    }
}

/// The message shown when a local archive cannot be opened.
pub open spec fn open_failure_message(archive_path: Seq<char>, error: Seq<char>) -> Seq<char> {
    "Could not open "@ + archive_path + ": "@ + error
}

/// Ends an archive load: the progress phase is cleared, and a failure leaves
/// its message as the error.
pub fn finish_archive_load(status: &mut ArchiveLoadStatus, result: Result<(), String>)
    ensures
        final(status).phase is None,
        match result {
            Ok(()) => final(status).error == old(status).error,
            Err(message) => opt_view(final(status).error) == Some(message@),
        },
{
    status.phase = None;
    if let Err(message) = result {
        status.error = Some(message);
    }
}

/// The error of a local archive that could not be opened: `Could not open <path>: <error>`.
pub fn open_failure(archive_path: &str, error: &str) -> (r: String)
    ensures
        r@ == open_failure_message(archive_path@, error@),
{
    let mut message = text("Could not open ");
    message.append(archive_path);
    message.append(": ");
    message.append(error);
    message
}

/// Starts an upload: preparing, with no error or success message yet.
pub fn begin_upload(upload: &mut UploadStatus)
    ensures
        opt_view(final(upload).phase) == Some("Preparing upload..."@),
        final(upload).error is None,
        final(upload).success is None,
        final(upload).download_url == old(upload).download_url,
{
    upload.phase = Some(text("Preparing upload..."));
    upload.error = None;
    upload.success = None;
}

/// Ends an upload: on success the download URL is handed over with a success
/// message; on failure the phase is cleared and the message kept as the error.
pub fn finish_upload(upload: &mut UploadStatus, result: Result<String, String>)
    ensures
        match result {
            Ok(url) => {
                &&& opt_view(final(upload).success) == Some("Upload complete. Opening archive..."@)
                &&& opt_view(final(upload).download_url) == Some(url@)
                &&& final(upload).phase == old(upload).phase
                &&& final(upload).error == old(upload).error
            },
            Err(message) => {
                &&& final(upload).phase is None
                &&& opt_view(final(upload).error) == Some(message@)
                &&& final(upload).success == old(upload).success
                &&& final(upload).download_url == old(upload).download_url
            },
        },
{
    match result {
        Ok(url) => {
            upload.success = Some(text("Upload complete. Opening archive..."));
            upload.download_url = Some(url);
        },
        Err(message) => {
            upload.phase = None;
            upload.error = Some(message);
        },
    }
}


/// Views of a vector of strings.
pub open spec fn strs(v: Seq<String>) -> Seq<Seq<char>> {
    v.map_values(|s: String| s@)
}

/// `s` with the elements at `i` and `j` exchanged.
pub open spec fn swapped<A>(s: Seq<A>, i: int, j: int) -> Seq<A> {
    s.update(i, s[j]).update(j, s[i])
}

/// Which mouse binding is waiting for a button press.
#[derive(Clone, Copy, Debug, PartialEq, Eq, Structural)]
pub enum MouseBinding {
    Orbit,
    Pan,
    Zoom,
}

/// The state of the top panel's windows and of the settings they edit.
pub struct TopPanelState {
    pub show_nif_popup: bool,
    pub show_resources: bool,
    pub show_keybindings: bool,
    pub capturing_frame_mesh_key: bool,
    pub capturing_mouse_binding: Option<MouseBinding>,
    pub show_resource_permission_prompt: bool,
    pub resource_paths: Vec<String>,
    pub selected_resource: Option<usize>,
}

/// Two panel states with the same windows open.
pub open spec fn same_windows(a: TopPanelState, b: TopPanelState) -> bool {
    &&& a.show_nif_popup == b.show_nif_popup
    &&& a.show_resources == b.show_resources
    &&& a.show_keybindings == b.show_keybindings
    &&& a.show_resource_permission_prompt == b.show_resource_permission_prompt
}

/// Two panel states waiting for the same key or button capture.
pub open spec fn same_captures(a: TopPanelState, b: TopPanelState) -> bool {
    &&& a.capturing_frame_mesh_key == b.capturing_frame_mesh_key
    &&& a.capturing_mouse_binding == b.capturing_mouse_binding
}

/// Two panel states with the same resource folders and selection.
pub open spec fn same_resources(a: TopPanelState, b: TopPanelState) -> bool {
    &&& strs(a.resource_paths@) == strs(b.resource_paths@)
    &&& a.selected_resource == b.selected_resource
}

impl TopPanelState {
    /// Adds a resource folder at the end of the search order and selects it.
    pub fn add_resource(&mut self, path: String)
        ensures
            strs(final(self).resource_paths@) == strs(old(self).resource_paths@).push(path@),
            final(self).selected_resource == Some(old(self).resource_paths.len() as usize),
            same_windows(*old(self), *final(self)),
            same_captures(*old(self), *final(self)),
    {
        let ghost before = strs(self.resource_paths@);
        self.resource_paths.push(path);
        assert(strs(self.resource_paths@) =~= before.push(path@));
        self.selected_resource = Some(self.resource_paths.len() - 1);
    }

    /// Removes the selected resource folder; the selection moves to the folder
    /// before it, or to the first folder when the first one was removed.
    /// Gives whether a folder was removed.
    pub fn remove_selected_resource(&mut self) -> (r: bool)
        requires
            old(self).selected_resource matches Some(i) ==> i < old(self).resource_paths.len(),
        ensures
            match old(self).selected_resource {
                Some(i) => {
                    &&& r
                    &&& strs(final(self).resource_paths@) == strs(old(self).resource_paths@).remove(i as int)
                    &&& final(self).selected_resource == (if i > 0 {
                        Some((i - 1) as usize)
                    } else if old(self).resource_paths.len() > 1 {
                        Some(0usize)
                    } else {
                        None
                    })
                },
                None => !r && final(self).resource_paths@ == old(self).resource_paths@
                    && final(self).selected_resource is None,
            },
            same_windows(*old(self), *final(self)),
            same_captures(*old(self), *final(self)),
    {
        let index = match self.selected_resource {
            Some(i) => i,
            None => return false,
        };
        let ghost before = strs(self.resource_paths@);
        self.resource_paths.remove(index);
        assert(strs(self.resource_paths@) =~= before.remove(index as int));
        self.selected_resource = if index > 0 {
            Some(index - 1)
        } else if self.resource_paths.len() > 0 {
            Some(0)
        } else {
            None
        };
        true
    }

    /// Moves the selected resource folder one place earlier in the search
    /// order, keeping it selected. Gives whether it moved.
    pub fn move_selected_resource_up(&mut self) -> (r: bool)
        requires
            old(self).selected_resource matches Some(i) ==> i < old(self).resource_paths.len(),
        ensures
            match old(self).selected_resource {
                Some(i) => if i > 0 {
                    &&& r
                    &&& strs(final(self).resource_paths@) == swapped(strs(old(self).resource_paths@), i as int, i - 1)
                    &&& final(self).selected_resource == Some((i - 1) as usize)
                } else {
                    !r && final(self).resource_paths@ == old(self).resource_paths@
                        && final(self).selected_resource == old(self).selected_resource
                },
                None => !r && final(self).resource_paths@ == old(self).resource_paths@
                    && final(self).selected_resource is None,
            },
            same_windows(*old(self), *final(self)),
            same_captures(*old(self), *final(self)),
    {
        let index = match self.selected_resource {
            Some(i) => i,
            None => return false,
        };
        if index == 0 {
            return false;
        }
        let ghost before = strs(self.resource_paths@);
        let moved = self.resource_paths.remove(index);
        self.resource_paths.insert(index - 1, moved);
        assert(strs(self.resource_paths@) =~= swapped(before, index as int, index - 1));
        self.selected_resource = Some(index - 1);
        true
    }

    /// Moves the selected resource folder one place later in the search
    /// order, keeping it selected. Gives whether it moved.
    pub fn move_selected_resource_down(&mut self) -> (r: bool)
        ensures
            match old(self).selected_resource {
                Some(i) => if i + 1 < old(self).resource_paths.len() {
                    &&& r
                    &&& strs(final(self).resource_paths@) == swapped(strs(old(self).resource_paths@), i as int, i + 1)
                    &&& final(self).selected_resource == Some((i + 1) as usize)
                } else {
                    !r && final(self).resource_paths@ == old(self).resource_paths@
                        && final(self).selected_resource == old(self).selected_resource
                },
                None => !r && final(self).resource_paths@ == old(self).resource_paths@
                    && final(self).selected_resource is None,
            },
            same_windows(*old(self), *final(self)),
            same_captures(*old(self), *final(self)),
    {
        let index = match self.selected_resource {
            Some(i) => i,
            None => return false,
        };
        if index >= self.resource_paths.len() || index + 1 >= self.resource_paths.len() {
            return false;
        }
        let ghost before = strs(self.resource_paths@);
        let moved = self.resource_paths.remove(index + 1);
        self.resource_paths.insert(index, moved);
        assert(strs(self.resource_paths@) =~= swapped(before, index as int, index + 1));
        self.selected_resource = Some(index + 1);
        true
    }

    /// Takes over the resource folder names the browser reports; gives
    /// whether they differ from the current ones.
    pub fn sync_resource_names(&mut self, names: Vec<String>) -> (r: bool)
        ensures
            r == (strs(names@) != strs(old(self).resource_paths@)),
            strs(final(self).resource_paths@) == strs(names@),
            same_windows(*old(self), *final(self)),
            same_captures(*old(self), *final(self)),
    {
        let mut same = names.len() == self.resource_paths.len();
        if !same {
            assert(strs(names@).len() != strs(self.resource_paths@).len());
        }
        let mut i: usize = 0;
        while same && i < names.len()
            invariant
                i <= names.len(),
                same ==> names.len() == self.resource_paths.len(),
                same ==> forall|k: int| 0 <= k < i ==> names@[k]@ == self.resource_paths@[k]@,
                !same ==> strs(names@) != strs(self.resource_paths@),
            decreases names.len() - i,
        {
            if !str_eq(&names[i], &self.resource_paths[i]) {
                same = false;
                assert(strs(names@)[i as int] != strs(self.resource_paths@)[i as int]);
            }
            i += 1;
        }
        if same {
            assert(strs(names@) =~= strs(self.resource_paths@));
            return false;
        }
        self.resource_paths = names;
        true
    }

    /// With the framing-key capture armed, a pressed key becomes the framing
    /// key and ends the capture. Gives whether the bindings changed.
    pub fn apply_key_capture(&mut self, bindings: &mut KeyBindings, pressed: Option<KeyCode>) -> (r: bool)
        ensures
            r == (old(self).capturing_frame_mesh_key && pressed is Some),
            r ==> final(bindings).frame_mesh == pressed.unwrap() && !final(self).capturing_frame_mesh_key,
            r ==> final(bindings).orbit == old(bindings).orbit && final(bindings).pan == old(bindings).pan
                && final(bindings).zoom == old(bindings).zoom,
            !r ==> *final(bindings) == *old(bindings)
                && final(self).capturing_frame_mesh_key == old(self).capturing_frame_mesh_key,
            final(self).capturing_mouse_binding == old(self).capturing_mouse_binding,
            same_windows(*old(self), *final(self)),
            same_resources(*old(self), *final(self)),
    {
        if self.capturing_frame_mesh_key {
            if let Some(key) = pressed {
                bindings.frame_mesh = key;
                self.capturing_frame_mesh_key = false;
                return true;
            }
        }
        false
    }

    /// With a mouse capture armed before this frame's click and still armed,
    /// a pressed button becomes that binding (zoom becomes a drag button) and
    /// ends the capture. Gives whether the bindings changed.
    pub fn apply_mouse_capture(
        &mut self,
        bindings: &mut KeyBindings,
        capturing_before_click: Option<MouseBinding>,
        pressed: Option<MouseButton>,
    ) -> (r: bool)
        ensures
            r == (capturing_before_click is Some && pressed is Some
                && old(self).capturing_mouse_binding is Some),
            r ==> final(self).capturing_mouse_binding is None,
            r ==> *final(bindings) == (match old(self).capturing_mouse_binding.unwrap() {
                MouseBinding::Orbit => KeyBindings { orbit: pressed.unwrap(), ..*old(bindings) },
                MouseBinding::Pan => KeyBindings { pan: pressed.unwrap(), ..*old(bindings) },
                MouseBinding::Zoom => KeyBindings { zoom: Some(pressed.unwrap()), ..*old(bindings) },
            }),
            !r ==> *final(bindings) == *old(bindings)
                && final(self).capturing_mouse_binding == old(self).capturing_mouse_binding,
            final(self).capturing_frame_mesh_key == old(self).capturing_frame_mesh_key,
            same_windows(*old(self), *final(self)),
            same_resources(*old(self), *final(self)),
            final(self).capturing_frame_mesh_key == old(self).capturing_frame_mesh_key,
    {
        if capturing_before_click.is_none() {
            return false;
        }
        let button = match pressed {
            Some(b) => b,
            None => return false,
        };
        let binding = match self.capturing_mouse_binding {
            Some(b) => b,
            None => return false,
        };
        match binding {
            MouseBinding::Orbit => bindings.orbit = button,
            MouseBinding::Pan => bindings.pan = button,
            MouseBinding::Zoom => bindings.zoom = Some(button),
        }
        self.capturing_mouse_binding = None;
        true
    }

    /// Restores the default bindings and ends any capture.
    pub fn reset_bindings(&mut self, bindings: &mut KeyBindings)
        ensures
            *final(bindings) == (KeyBindings {
                frame_mesh: KeyCode::KeyF,
                orbit: MouseButton::Left,
                pan: MouseButton::Right,
                zoom: None,
            }),
            !final(self).capturing_frame_mesh_key,
            final(self).capturing_mouse_binding is None,
            same_windows(*old(self), *final(self)),
            same_resources(*old(self), *final(self)),
    {
        *bindings = KeyBindings::default();
        self.capturing_frame_mesh_key = false;
        self.capturing_mouse_binding = None;
    }

    /// Records whether the bindings window is open; closing it ends any capture.
    pub fn set_keybindings_open(&mut self, open: bool)
        ensures
            final(self).show_keybindings == open,
            !open ==> !final(self).capturing_frame_mesh_key && final(self).capturing_mouse_binding is None,
            open ==> final(self).capturing_frame_mesh_key == old(self).capturing_frame_mesh_key
                && final(self).capturing_mouse_binding == old(self).capturing_mouse_binding,
            same_resources(*old(self), *final(self)),
            final(self).show_nif_popup == old(self).show_nif_popup,
            final(self).show_resources == old(self).show_resources,
            final(self).show_resource_permission_prompt == old(self).show_resource_permission_prompt,
    {
        self.show_keybindings = open;
        if !open {
            self.capturing_frame_mesh_key = false;
            self.capturing_mouse_binding = None;
        }
    }
}

impl ArchiveState {
    /// After the resource folders change, the shown file is loaded again.
    pub fn reload_selected(&mut self)
        ensures
            opt_view(final(self).pending_file) == opt_view(old(self).selected_file),
            opt_view(final(self).selected_file) == opt_view(old(self).selected_file),
            final(self).show_zip_popup == old(self).show_zip_popup,
            final(self).zip_url_input == old(self).zip_url_input,
            final(self).recent_source == old(self).recent_source,
            final(self).file_search_query == old(self).file_search_query,
            final(self).nif_load_error == old(self).nif_load_error,
    {
        self.pending_file = copy_opt(&self.selected_file);
    }
}

/// Moving a resource folder up and then down again restores the search order.
pub proof fn lemma_move_up_then_down<A>(s: Seq<A>, i: int)
    requires
        0 < i < s.len(),
    ensures
        swapped(swapped(s, i, i - 1), i - 1, i) == s,
{
    assert(swapped(swapped(s, i, i - 1), i - 1, i) =~= s);
}

/// What the inspector shows of the loaded NIF.
pub struct InspectorState {
    pub nif_objects: Vec<NifObjectInfo>,
    pub nif_roots: Vec<usize>,
    pub selected_node: Option<usize>,
    pub triangle_count: usize,
}

/// The label of a node in the hierarchy: its position, a colon, its type.
pub open spec fn node_label_text(index: usize, type_label: Seq<char>) -> Seq<char> {
    decimal(index as nat) + seq![':', ' '] + type_label
}

impl InspectorState {
    /// Nothing loaded, nothing selected.
    pub fn new() -> (r: InspectorState)
        ensures
            r.nif_objects@.len() == 0,
            r.nif_roots@.len() == 0,
            r.selected_node is None,
            r.triangle_count == 0,
    {
        InspectorState { nif_objects: Vec::new(), nif_roots: Vec::new(), selected_node: None, triangle_count: 0 }
    }

    /// Shows a parsed stream: its objects with the positions of the objects
    /// each links to, its roots, no selection, and no triangles counted yet.
    pub fn show_stream(&mut self, objects: &Vec<NifObject>, root_keys: &Vec<u64>)
        ensures
            final(self).nif_objects.len() == objects.len(),
            forall|i: int| 0 <= i < objects.len() ==> {
                &&& (#[trigger] final(self).nif_objects@[i]).type_label@ == objects@[i].type_label@
                &&& final(self).nif_objects@[i].fields@ == objects@[i].fields@
                &&& as_ints(final(self).nif_objects@[i].children@) == linked_positions(
                    key_positions(object_keys(objects@)),
                    objects@[i].links@,
                )
            },
            as_ints(final(self).nif_roots@) == linked_positions(key_positions(object_keys(objects@)), root_keys@),
            final(self).selected_node is None,
            final(self).triangle_count == 0,
    {
        let (infos, roots) = build_hierarchy(objects, root_keys);
        self.nif_objects = infos;
        self.nif_roots = roots;
        self.selected_node = None;
        self.triangle_count = 0;
    }

    /// A left click in the viewport that picks no shape clears the selection.
    pub fn clear_selection(&mut self)
        ensures
            final(self).selected_node is None,
            final(self).nif_objects@ == old(self).nif_objects@,
            final(self).nif_roots@ == old(self).nif_roots@,
            final(self).triangle_count == old(self).triangle_count,
    {
        self.selected_node = None;
    }

    /// A picked shape selects its node; a pick without a node changes nothing.
    pub fn select_node(&mut self, node: Option<usize>)
        ensures
            final(self).selected_node == (match node {
                Some(n) => Some(n),
                None => old(self).selected_node,
            }),
            final(self).nif_objects@ == old(self).nif_objects@,
            final(self).nif_roots@ == old(self).nif_roots@,
            final(self).triangle_count == old(self).triangle_count,
    {
        if let Some(n) = node {
            self.selected_node = Some(n);
        }
    }

    /// The label of the node at `index` (`<index>: <type>`), when there is one.
    pub fn node_label(&self, index: usize) -> (r: Option<String>)
        ensures
            match r {
                Some(label) => index < self.nif_objects.len()
                    && label@ == node_label_text(index, self.nif_objects@[index as int].type_label@),
                None => index >= self.nif_objects.len(),
            },
    {
        if index >= self.nif_objects.len() {
            return None;
        }
        let mut label = string_from_chars(&crate::keys::decimal_chars(index as u64));
        label.append(": ");
        label.append(self.nif_objects[index].type_label.as_str());
        proof {
            reveal_strlit(": ");
            assert(": "@ =~= seq![':', ' ']);
        }
        Some(label)
    }
}

/// The shown value of a property: its first fifty characters.
pub fn property_text(value: &str) -> (r: String)
    ensures
        r@ == (if value@.len() <= 50 {
            value@
        } else {
            value@.take(50)
        }),
{
    let chars = chars_of(value);
    let mut shown: Vec<char> = Vec::new();
    let mut i: usize = 0;
    while i < chars.len() && i < 50
        invariant
            i <= chars.len(),
            i <= 50,
            shown@ == chars@.take(i as int),
        decreases chars.len() - i,
    {
        shown.push(chars[i]);
        i += 1;
        assert(shown@ =~= chars@.take(i as int));
    }
    if chars.len() <= 50 {
        assert(chars@.take(chars.len() as int) =~= chars@);
    }
    string_from_chars(&shown)
}

/// The whole state of the viewer's panels.
pub struct UIState {
    pub archive: ArchiveState,
    pub inspector: InspectorState,
    pub top_panel: TopPanelState,
    pub key_bindings: KeyBindings,
    pub view: ViewState,
}

impl UIState {
    /// The renderer-facing snapshot of the view controls.
    pub fn view_options(&self) -> (r: ViewOptions)
        ensures
            r.shading_mode == self.view.shading_mode,
            r.vertex_colors == self.view.vertex_colors,
            r.collision == self.view.collision,
            r.wireframe == self.view.wireframe,
    {
        ViewOptions::from_state(&self.view)
    }

    /// The framing shortcut fires when its key was just pressed, unless the
    /// key is being captured for a new binding.
    pub fn frame_requested(&self, just_pressed: &Vec<KeyCode>) -> (r: bool)
        ensures
            r == (!self.top_panel.capturing_frame_mesh_key && just_pressed@.contains(self.key_bindings.frame_mesh)),
    {
        if self.top_panel.capturing_frame_mesh_key {
            return false;
        }
        let mut i: usize = 0;
        while i < just_pressed.len()
            invariant
                i <= just_pressed.len(),
                !self.top_panel.capturing_frame_mesh_key,
                forall|k: int| 0 <= k < i ==> just_pressed@[k] != self.key_bindings.frame_mesh,
            decreases just_pressed.len() - i,
        {
            if just_pressed[i] == self.key_bindings.frame_mesh {
                assert(just_pressed@[i as int] == self.key_bindings.frame_mesh);
                return true;
            }
            i += 1;
        }
        false
    }
}

/// The line of a resource folder in the settings list: its place in the
/// search order, counted from 1, then the folder.
pub fn resource_label(index: usize, path: &str) -> (r: String)
    requires
        index < usize::MAX,
    ensures
        r@ == decimal((index + 1) as nat) + " - "@ + path@,
{
    let mut label = string_from_chars(&crate::keys::decimal_chars((index + 1) as u64));
    label.append(" - ");
    label.append(path);
    label
}

/// A mouse button as the bindings window shows it: its name, with the
/// number of any other button in brackets.
pub open spec fn mouse_label_text(button: MouseButton) -> Seq<char> {
    match button {
        MouseButton::Other(n) => "Other("@ + decimal(n as nat) + ")"@,
        _ => mouse_name(button),
    }
}

impl TopPanelState {
    /// Arms the capture of a new framing key.
    pub fn start_key_capture(&mut self)
        ensures
            final(self).capturing_frame_mesh_key,
            final(self).capturing_mouse_binding == old(self).capturing_mouse_binding,
            final(self).show_keybindings == old(self).show_keybindings,
            same_windows(*old(self), *final(self)),
            same_resources(*old(self), *final(self)),
    {
        self.capturing_frame_mesh_key = true;
    }

    /// Arms the capture of a new button for a mouse binding.
    pub fn start_mouse_capture(&mut self, action: MouseBinding)
        ensures
            final(self).capturing_mouse_binding == Some(action),
            final(self).capturing_frame_mesh_key == old(self).capturing_frame_mesh_key,
            final(self).show_keybindings == old(self).show_keybindings,
            same_windows(*old(self), *final(self)),
            same_resources(*old(self), *final(self)),
    {
        self.capturing_mouse_binding = Some(action);
    }

    /// The label of the framing-key button: a prompt while the key is being
    /// captured, otherwise the bound key's name (`None` for a key that has
    /// no name here).
    pub fn frame_key_label(&self, bindings: &KeyBindings) -> (r: Option<String>)
        ensures
            match r {
                Some(label) => if self.capturing_frame_mesh_key {
                    label@ == "Press a key..."@
                } else {
                    key_name(bindings.frame_mesh) == Some(label@)
                },
                None => !self.capturing_frame_mesh_key && key_name(bindings.frame_mesh) is None,
            },
    {
        if self.capturing_frame_mesh_key {
            return Some(text("Press a key..."));
        }
        match key_code_name(bindings.frame_mesh) {
            Some(name) => Some(text(name)),
            None => None,
        }
    }

    /// The label of a mouse binding's button: a prompt while that binding is
    /// being captured, otherwise the bound button, or the scroll wheel when
    /// no button is bound.
    pub fn mouse_binding_label(&self, binding: Option<MouseButton>, action: MouseBinding) -> (r: String)
        ensures
            r@ == (if self.capturing_mouse_binding == Some(action) {
                "Click a mouse button..."@
            } else {
                match binding {
                    Some(button) => mouse_label_text(button),
                    None => "Scroll wheel"@,
                }
            }),
    {
        let capturing = match self.capturing_mouse_binding {
            Some(current) => current == action,
            None => false,
        };
        if capturing {
            return text("Click a mouse button...");
        }
        match binding {
            Some(MouseButton::Other(n)) => {
                let mut label = text("Other(");
                label.append(string_from_chars(&crate::keys::decimal_chars(n as u64)).as_str());
                label.append(")");
                label
            },
            Some(button) => mouse_button_name(button),
            None => text("Scroll wheel"),
        }
    }
}
} // verus!
