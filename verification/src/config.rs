//! The configuration: the tray's own settings and the applications it manages.

use vstd::prelude::*;

use crate::icon::{
    decode_file, decoded_by_content, decoded_by_extension, decoded_content, decoded_file,
    decoded_icon, decoded_view, extension_fits, extension_of, extension_view, holds_broken_palette,
    icon_from_decoded, icon_view, load_icon, told_extension, Decoded, DecodedView, IconImage,
    IconView,
};

verus! {

/// An application that the tray manages.
#[derive(Clone, Debug)]
pub struct AppItem {
    /// The name shown in the menu.
    pub name: String,
    /// The directory that the application is started in; empty for the tray's own.
    pub home: String,
    /// The command line that starts the application.
    pub start: String,
    /// A command line to stop the application. It is read and kept, but not run.
    pub stop: String,
    /// A command line to restart the application. It is read and kept, but not run.
    pub restart: String,
    /// Whether the application is started together with the tray.
    pub auto_start: bool,
    /// The address under which a browser reaches the application; empty for none.
    pub address: String,
    /// Whether the address is opened when the application is started with the tray.
    pub auto_open: bool,
    /// The number under which this run of the tray knows the application.
    pub uniq_id: usize,
}

/// The configuration of the tray.
#[derive(Clone, Debug)]
pub struct AppConfig {
    /// The title shown at the head of the menu.
    pub title: String,
    /// The path of the tray's icon; empty for the one that is built in.
    pub icon: String,
    /// The applications, in the order of the menu.
    pub groups: Vec<AppItem>,
}

impl AppConfig {
    /// The icon that is configured, given what decoding its file gave: none if no path is
    /// configured, if nothing was decoded, or if that does not make a picture.
    pub open spec fn configured_icon(self, decoded: DecodedView) -> Option<IconView> {
        if self.icon@.len() == 0 {
            None
        } else {
            decoded_icon(decoded)
        }
    }

    /// Picks the icon that is configured, given what decoding its file gave.
    pub fn pick_icon(&self, decoded: Decoded) -> (icon: Option<IconImage>)
        ensures
            icon_view(icon) == self.configured_icon(decoded_view(decoded)),
            self.icon@.len() == 0 ==> icon is None,
            decoded is None ==> icon is None,
            decoded matches Some((rgba, width, height)) ==> self.icon@.len() > 0 ==> {
                &&& icon is Some <==> rgba@.len() == 4 * width * height
                &&& icon matches Some(image) ==> image.rgba@ == rgba@ && image.width == width
                    && image.height == height
            },
    {
        if self.icon.as_str().is_empty() {
            return None;
        }
        icon_from_decoded(decoded)
    }

    /// The icon of the tray, given the extension of the configured path, which tells the format
    /// of the configured file: the one in that file if it could be read and decoded, and otherwise
    /// the one that is built in.
    pub open spec fn tray_icon(
        self,
        ext: Option<Seq<char>>,
        file: Option<&[u8]>,
        builtin: Seq<u8>,
    ) -> Option<IconView> {
        let decoded = match file {
            Some(data) => decoded_file(ext, data@),
            None => None,
        };
        match self.configured_icon(decoded) {
            Some(configured) => Some(configured),
            None => decoded_icon(decoded_content(builtin)),
        }
    }

    /// A configured picture is the icon: whenever a path is configured, its file could be read
    /// and decoding it gave four bytes for each pixel, the icon has exactly those bytes, that
    /// width and that height, whatever they are and whatever is built in.
    pub proof fn law_configured_picture_is_the_icon(
        self,
        ext: Seq<char>,
        data: &[u8],
        rgba: Seq<u8>,
        width: u32,
        height: u32,
        builtin: Seq<u8>,
    )
        requires
            self.icon@.len() > 0,
            !holds_broken_palette(data@),
            decoded_by_extension(ext, data@) == Some((rgba, width, height)),
            rgba.len() == 4 * width * height,
        ensures
            self.tray_icon(Some(ext), Some(data), builtin) == Some(
                (IconView { rgba, width, height }),
            ),
    {
    }

    /// The icon that is built in is used for nothing else than where no path is configured, the
    /// file could not be read, its path has no extension, a palette in it is broken, or decoding
    /// it did not give four bytes for each pixel; and there it is always used.
    pub proof fn law_built_in_icon_stands_in(
        self,
        ext: Option<Seq<char>>,
        file: Option<&[u8]>,
        builtin: Seq<u8>,
    )
        requires
            self.icon@.len() == 0 || match (ext, file) {
                (Some(e), Some(data)) => holds_broken_palette(data@) || match decoded_by_extension(
                    e,
                    data@,
                ) {
                    Some((rgba, width, height)) => rgba.len() != 4 * width * height,
                    None => true,
                },
                _ => true,
            },
        ensures
            holds_broken_palette(builtin) ==> self.tray_icon(ext, file, builtin) is None,
            !holds_broken_palette(builtin) ==> match decoded_by_content(builtin) {
                Some((rgba, width, height)) => self.tray_icon(ext, file, builtin) == (if rgba.len()
                    == 4 * width * height {
                    Some(IconView { rgba, width, height })
                } else {
                    None
                }),
                None => self.tray_icon(ext, file, builtin) is None,
            },
    {
    }

    /// Loads the icon of the tray: the one in the configured file, whose bytes are `file` if it
    /// could be read, and otherwise the one that is built in. The extension that the system reads
    /// in the configured path tells the format of the configured file.
    pub fn load_icon(&self, file: Option<&[u8]>, builtin: &[u8]) -> (icon: Option<IconImage>)
        ensures
            exists|ext: Option<Seq<char>>| #[trigger]
                told_extension(self.icon@, ext) && extension_fits(self.icon@, ext) && icon_view(
                    icon,
                ) == self.tray_icon(ext, file, builtin@) && ({
                    let configured = match (ext, file) {
                        (Some(e), Some(data)) => if self.icon@.len() == 0 || holds_broken_palette(
                            data@,
                        ) {
                            None
                        } else {
                            decoded_by_extension(e, data@)
                        },
                        _ => None,
                    };
                    let found = if configured is Some {
                        configured
                    } else if holds_broken_palette(builtin@) {
                        None
                    } else {
                        decoded_by_content(builtin@)
                    };
                    match found {
                        Some((rgba, width, height)) => icon matches Some(image) && image.rgba@
                            == rgba && image.width == width && image.height == height,
                        None => icon is None,
                    }
                }),
    {
        let ext = extension_of(self.icon.as_str());
        let ghost told = extension_view(ext);
        let decoded = match file {
            Some(data) => decode_file(ext, data),
            None => None,
        };
        let icon = match self.pick_icon(decoded) {
            Some(icon) => Some(icon),
            None => load_icon(builtin),
        };
        assert(told_extension(self.icon@, told));
        icon
    }
}

/// The value of a switch that is on when the configuration does not mention it.
pub fn default_true() -> (on: bool)
    ensures
        on,
{
    true
}

/// The first number that is issued.
pub const FIRST_ID: usize = 1;

/// The number that is issued after a given one: the next one, or zero after the greatest.
pub open spec fn following_id(id: usize) -> usize {
    if id == usize::MAX {
        0
    } else {
        (id + 1) as usize
    }
}

/// Issues a number: the one that `next` holds. Afterwards `next` holds the following one.
pub fn next_runtime_id(next: &mut usize) -> (id: usize)
    ensures
        id == *old(next),
        *final(next) == following_id(*old(next)),
        *old(next) < usize::MAX ==> *final(next) == *old(next) + 1,
        *old(next) == usize::MAX ==> *final(next) == 0,
{
    let id: usize = *next;
    *next = id.wrapping_add(1);
    id
}

/// The number that is issued after `count` others when `first` is the first one.
pub open spec fn issued_id(first: usize, count: nat) -> usize
    decreases count,
{
    if count == 0 {
        first
    } else {
        following_id(issued_id(first, (count - 1) as nat))
    }
}

proof fn lemma_issued_id(first: usize, count: nat)
    requires
        count <= usize::MAX,
    ensures
        issued_id(first, count) == (if first + count <= usize::MAX {
            first + count
        } else {
            first + count - usize::MAX - 1
        }),
    decreases count,
{
    if count > 0 {
        lemma_issued_id(first, (count - 1) as nat);
    }
}

proof fn lemma_issued_id_from(first: usize, i: nat, count: nat)
    ensures
        issued_id(first, i + count) == issued_id(issued_id(first, i), count),
    decreases count,
{
    if count > 0 {
        lemma_issued_id_from(first, i, (count - 1) as nat);
        assert((i + count - 1) as nat == i + (count - 1) as nat);
    }
}

/// The numbers count up from one: none is zero, and none is skipped.
pub proof fn law_ids_count_up(count: nat)
    requires
        count < usize::MAX,
    ensures
        issued_id(FIRST_ID, count) == count + 1,
{
    lemma_issued_id(FIRST_ID, count);
}

/// A number that is issued later is the greater one, until the greatest has been issued.
pub proof fn law_later_ids_are_greater(i: nat, j: nat)
    requires
        i < j < usize::MAX,
    ensures
        issued_id(FIRST_ID, i) < issued_id(FIRST_ID, j),
{
    law_ids_count_up(i);
    law_ids_count_up(j);
}

/// The first `n` numbers are those from one to `n`.
pub proof fn law_first_ids_are_one_to_n(n: nat, id: usize)
    requires
        n <= usize::MAX,
    ensures
        (exists|count: nat| count < n && #[trigger] issued_id(FIRST_ID, count) == id) <==> 1 <= id
            <= n,
{
    assert forall|count: nat| count < n implies #[trigger] issued_id(FIRST_ID, count) == count
        + 1 by {
        law_ids_count_up(count);
    }
    if 1 <= id <= n {
        assert(issued_id(FIRST_ID, (id - 1) as nat) == id);
    }
}

/// A number is not issued again until all the others have been issued.
pub proof fn law_issued_ids_are_distinct(first: usize, i: nat, j: nat)
    requires
        i < j,
        j - i <= usize::MAX,
    ensures
        issued_id(first, i) != issued_id(first, j),
{
    lemma_issued_id_from(first, i, (j - i) as nat);
    lemma_issued_id(issued_id(first, i), (j - i) as nat);
}

} // verus!
