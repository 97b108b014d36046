//! The account profile editor as a state machine: seeding it from the server,
//! what each edit does, the request a save sends, and the identity strip
//! shown above the fields.

use vstd::prelude::*;

use crate::contracts::{ProfileUpdateRequest, ProfileView};
use crate::organizations::{char_is_ascii_alnum, is_ascii_alnum};
use crate::text::{
    char_lower, chars_of, is_digit, is_lower, lower, lower_seq, lowercase_range, opt_is, opt_text, owned, push_char,
    push_str, str_eq, string_of, trim, trimmed_chars, trimmed_string,
};
use crate::validation::{utf8_len, utf8_len_below, utf8_len_exceeds};

verus! {

/// The state of the profile editor.
pub struct ProfileForm {
    pub first_name: String,
    pub last_name: String,
    pub display_name: String,
    pub username: String,
    pub is_public: bool,
    pub avatar_data_url: Option<String>,
    /// The photo was picked or removed since the form was seeded.
    pub avatar_dirty: bool,
    pub client_error: Option<String>,
    /// The form holds a profile from the server.
    pub seeded: bool,
}

/// What the username field keeps of typed text: ASCII letters, digits and
/// underscores, lowercased.
pub open spec fn username_input(s: Seq<char>) -> Seq<char>
    decreases s.len(),
{
    if s.len() == 0 {
        Seq::empty()
    } else {
        let kept = username_input(s.drop_last());
        let c = s.last();
        if is_ascii_alnum(c) || c == '_' {
            kept.push(lower(c))
        } else {
            kept
        }
    }
}

pub fn clean_username_input(raw: &str) -> (r: String)
    ensures
        r@ == username_input(raw@),
{
    let v = chars_of(raw);
    let mut r = String::new();
    let mut i: usize = 0;
    while i < v.len()
        invariant
            i <= v@.len(),
            r@ == username_input(v@.subrange(0, i as int)),
        decreases v@.len() - i,
    {
        proof {
            assert(v@.subrange(0, i + 1).drop_last() =~= v@.subrange(0, i as int));
        }
        let c = v[i];
        if char_is_ascii_alnum(c) || c == '_' {
            push_char(&mut r, char_lower(c));
        }
        i += 1;
    }
    proof {
        assert(v@.subrange(0, v@.len() as int) =~= v@);
    }
    r
}

/// A character a username may hold.
pub open spec fn is_handle_char(c: char) -> bool {
    is_digit(c) || is_lower(c) || c == '_'
}

proof fn lemma_username_input_chars(s: Seq<char>)
    ensures
        forall|i: int|
            0 <= i < username_input(s).len() ==> is_handle_char(#[trigger] username_input(s)[i]),
    decreases s.len(),
{
    if s.len() > 0 {
        lemma_username_input_chars(s.drop_last());
        let kept = username_input(s.drop_last());
        let c = s.last();
        if is_ascii_alnum(c) || c == '_' {
            assert forall|i: int| 0 <= i < kept.push(lower(c)).len() implies is_handle_char(
                #[trigger] kept.push(lower(c))[i],
            ) by {
                if i < kept.len() {
                    assert(kept.push(lower(c))[i] == kept[i]);
                }
            }
        }
    }
}

proof fn lemma_username_input_keeps(s: Seq<char>)
    requires
        forall|i: int| 0 <= i < s.len() ==> is_handle_char(#[trigger] s[i]),
    ensures
        username_input(s) == s,
    decreases s.len(),
{
    if s.len() > 0 {
        let p = s.drop_last();
        assert forall|i: int| 0 <= i < p.len() implies is_handle_char(#[trigger] p[i]) by {
            assert(p[i] == s[i]);
        }
        lemma_username_input_keeps(p);
        assert(is_handle_char(s[s.len() - 1]));
        assert(p.push(s.last()) =~= s);
    }
}

/// What the username field keeps holds only lowercase ASCII letters, digits
/// and underscores, and typing it again keeps it as it is.
pub proof fn username_input_is_a_handle(s: Seq<char>)
    ensures
        forall|i: int|
            0 <= i < username_input(s).len() ==> is_handle_char(#[trigger] username_input(s)[i]),
        username_input(username_input(s)) == username_input(s),
{
    lemma_username_input_chars(s);
    lemma_username_input_keeps(username_input(s));
}

/// The name at the top of the editor: the display name when it is not blank,
/// else first and last name, else the email, else a placeholder.
pub open spec fn profile_title_spec(
    display_name: Seq<char>,
    first_name: Seq<char>,
    last_name: Seq<char>,
    email: Option<Seq<char>>,
) -> Seq<char> {
    let composed = trim(first_name + " "@ + last_name);
    let e = match email {
        Some(e) => e,
        None => Seq::empty(),
    };
    if trim(display_name).len() > 0 {
        display_name
    } else if composed.len() > 0 {
        composed
    } else if e.len() > 0 {
        e
    } else {
        "Your name"@
    }
}

/// The profile has a name of its own (not just an email).
pub open spec fn has_name_spec(display_name: Seq<char>, first_name: Seq<char>, last_name: Seq<char>) -> bool {
    trim(display_name).len() > 0 || trim(first_name + " "@ + last_name).len() > 0
}

/// The username a save sends, and the error when it is the wrong length.
pub open spec fn username_error(username: Seq<char>) -> Option<Seq<char>> {
    let h = trim(username);
    if h.len() > 0 && (utf8_len(h) < 3 || utf8_len(h) > 30) {
        Some("Username must be 3\u{2013}30 characters."@)
    } else {
        None
    }
}

impl ProfileForm {
    pub fn new() -> (r: ProfileForm)
        ensures
            r.first_name@.len() == 0,
            r.last_name@.len() == 0,
            r.display_name@.len() == 0,
            r.username@.len() == 0,
            !r.is_public,
            r.avatar_data_url is None,
            !r.avatar_dirty,
            r.client_error is None,
            !r.seeded,
    {
        ProfileForm {
            first_name: String::new(),
            last_name: String::new(),
            display_name: String::new(),
            username: String::new(),
            is_public: false,
            avatar_data_url: None,
            avatar_dirty: false,
            client_error: None,
            seeded: false,
        }
    }

    fn fill(&mut self, profile: &ProfileView)
        ensures
            final(self).first_name@ == profile.first_name@,
            final(self).last_name@ == profile.last_name@,
            final(self).display_name@ == profile.display_name@,
            final(self).username@ == profile.username@,
            final(self).is_public == profile.is_public,
            opt_text(final(self).avatar_data_url) == opt_text(profile.avatar_data_url),
            !final(self).avatar_dirty,
            final(self).seeded,
            final(self).client_error == old(self).client_error,
    {
        self.first_name = owned(profile.first_name.as_str());
        self.last_name = owned(profile.last_name.as_str());
        self.display_name = owned(profile.display_name.as_str());
        self.username = owned(profile.username.as_str());
        self.is_public = profile.is_public;
        self.avatar_data_url = match &profile.avatar_data_url {
            Some(u) => Some(owned(u.as_str())),
            None => None,
        };
        self.avatar_dirty = false;
        self.seeded = true;
    }

    /// The profile arrived from the server: it fills the form once; later
    /// loads leave the user's edits alone.
    pub fn loaded(&mut self, profile: &ProfileView)
        ensures
            old(self).seeded ==> *final(self) == *old(self),
            !old(self).seeded ==> {
                &&& final(self).first_name@ == profile.first_name@
                &&& final(self).last_name@ == profile.last_name@
                &&& final(self).display_name@ == profile.display_name@
                &&& final(self).username@ == profile.username@
                &&& final(self).is_public == profile.is_public
                &&& opt_text(final(self).avatar_data_url) == opt_text(profile.avatar_data_url)
                &&& !final(self).avatar_dirty
                &&& final(self).seeded
                &&& final(self).client_error == old(self).client_error
            },
    {
        if !self.seeded {
            self.fill(profile);
        }
    }

    /// A save went through: the form shows what the server stored.
    pub fn saved(&mut self, profile: &ProfileView)
        ensures
            final(self).first_name@ == profile.first_name@,
            final(self).last_name@ == profile.last_name@,
            final(self).display_name@ == profile.display_name@,
            final(self).username@ == profile.username@,
            final(self).is_public == profile.is_public,
            opt_text(final(self).avatar_data_url) == opt_text(profile.avatar_data_url),
            !final(self).avatar_dirty,
            final(self).seeded,
            final(self).client_error is None,
    {
        self.fill(profile);
        self.client_error = None;
    }

    pub fn edit_first_name(&mut self, value: String)
        ensures
            final(self).first_name == value,
            final(self).client_error is None,
            final(self).last_name == old(self).last_name,
            final(self).display_name == old(self).display_name,
            final(self).username == old(self).username,
            final(self).is_public == old(self).is_public,
            final(self).avatar_data_url == old(self).avatar_data_url,
            final(self).avatar_dirty == old(self).avatar_dirty,
            final(self).seeded == old(self).seeded,
    {
        self.client_error = None;
        self.first_name = value;
    }

    pub fn edit_last_name(&mut self, value: String)
        ensures
            final(self).last_name == value,
            final(self).client_error is None,
            final(self).first_name == old(self).first_name,
            final(self).display_name == old(self).display_name,
            final(self).username == old(self).username,
            final(self).is_public == old(self).is_public,
            final(self).avatar_data_url == old(self).avatar_data_url,
            final(self).avatar_dirty == old(self).avatar_dirty,
            final(self).seeded == old(self).seeded,
    {
        self.client_error = None;
        self.last_name = value;
    }

    pub fn edit_display_name(&mut self, value: String)
        ensures
            final(self).display_name == value,
            final(self).client_error is None,
            final(self).first_name == old(self).first_name,
            final(self).last_name == old(self).last_name,
            final(self).username == old(self).username,
            final(self).is_public == old(self).is_public,
            final(self).avatar_data_url == old(self).avatar_data_url,
            final(self).avatar_dirty == old(self).avatar_dirty,
            final(self).seeded == old(self).seeded,
    {
        self.client_error = None;
        self.display_name = value;
    }

    /// Typing a username keeps only what a handle may hold.
    pub fn edit_username(&mut self, raw: &str)
        ensures
            final(self).username@ == username_input(raw@),
            final(self).client_error is None,
            final(self).first_name == old(self).first_name,
            final(self).last_name == old(self).last_name,
            final(self).display_name == old(self).display_name,
            final(self).is_public == old(self).is_public,
            final(self).avatar_data_url == old(self).avatar_data_url,
            final(self).avatar_dirty == old(self).avatar_dirty,
            final(self).seeded == old(self).seeded,
    {
        self.client_error = None;
        self.username = clean_username_input(raw);
    }

    pub fn set_public(&mut self, is_public: bool)
        ensures
            final(self).is_public == is_public,
            final(self).client_error is None,
            final(self).first_name == old(self).first_name,
            final(self).last_name == old(self).last_name,
            final(self).display_name == old(self).display_name,
            final(self).username == old(self).username,
            final(self).avatar_data_url == old(self).avatar_data_url,
            final(self).avatar_dirty == old(self).avatar_dirty,
            final(self).seeded == old(self).seeded,
    {
        self.client_error = None;
        self.is_public = is_public;
    }

    /// A photo was picked and read as a data URL.
    pub fn avatar_picked(&mut self, data_url: String)
        ensures
            final(self).avatar_data_url == Some(data_url),
            final(self).avatar_dirty,
            final(self).client_error is None,
            final(self).first_name == old(self).first_name,
            final(self).last_name == old(self).last_name,
            final(self).display_name == old(self).display_name,
            final(self).username == old(self).username,
            final(self).is_public == old(self).is_public,
            final(self).seeded == old(self).seeded,
    {
        self.avatar_data_url = Some(data_url);
        self.avatar_dirty = true;
        self.client_error = None;
    }

    /// The picked photo could not be read; `message` is the reader's text, if any.
    pub fn avatar_failed(&mut self, message: Option<String>)
        ensures
            opt_is(
                final(self).client_error,
                match message {
                    Some(m) => m@,
                    None => "Could not read image."@,
                },
            ),
            final(self).avatar_data_url == old(self).avatar_data_url,
            final(self).avatar_dirty == old(self).avatar_dirty,
            final(self).first_name == old(self).first_name,
            final(self).last_name == old(self).last_name,
            final(self).display_name == old(self).display_name,
            final(self).username == old(self).username,
            final(self).is_public == old(self).is_public,
            final(self).seeded == old(self).seeded,
    {
        self.client_error = Some(
            match message {
                Some(m) => m,
                None => owned("Could not read image."),
            },
        );
    }

    /// "Remove photo".
    pub fn remove_avatar(&mut self)
        ensures
            final(self).avatar_data_url is None,
            final(self).avatar_dirty,
            final(self).client_error is None,
            final(self).first_name == old(self).first_name,
            final(self).last_name == old(self).last_name,
            final(self).display_name == old(self).display_name,
            final(self).username == old(self).username,
            final(self).is_public == old(self).is_public,
            final(self).seeded == old(self).seeded,
    {
        self.avatar_data_url = None;
        self.avatar_dirty = true;
        self.client_error = None;
    }

    /// "Save changes": the request to send, with the trimmed username and the
    /// photo only when it changed (an empty text when it was removed). A
    /// username of the wrong length becomes the form's error instead.
    pub fn save(&mut self) -> (r: Option<ProfileUpdateRequest>)
        ensures
            match username_error(old(self).username@) {
                Some(m) => r is None && opt_is(final(self).client_error, m),
                None => {
                    &&& final(self).client_error is None
                    &&& r matches Some(q) && {
                        &&& q.first_name@ == old(self).first_name@
                        &&& q.last_name@ == old(self).last_name@
                        &&& q.display_name@ == old(self).display_name@
                        &&& q.username@ == trim(old(self).username@)
                        &&& q.is_public == old(self).is_public
                        &&& opt_text(q.avatar_data_url) == if old(self).avatar_dirty {
                            Some(
                                match old(self).avatar_data_url {
                                    Some(u) => u@,
                                    None => Seq::empty(),
                                },
                            )
                        } else {
                            None
                        }
                    }
                },
            },
            final(self).first_name == old(self).first_name,
            final(self).last_name == old(self).last_name,
            final(self).display_name == old(self).display_name,
            final(self).username == old(self).username,
            final(self).is_public == old(self).is_public,
            final(self).avatar_data_url == old(self).avatar_data_url,
            final(self).avatar_dirty == old(self).avatar_dirty,
            final(self).seeded == old(self).seeded,
    {
        self.client_error = None;
        let h = trimmed_chars(self.username.as_str());
        if h.len() > 0 && (utf8_len_below(&h, 3) || utf8_len_exceeds(&h, 30)) {
            self.client_error = Some(owned("Username must be 3\u{2013}30 characters."));
            return None;
        }
        let avatar = if self.avatar_dirty {
            match &self.avatar_data_url {
                Some(u) => Some(owned(u.as_str())),
                None => Some(String::new()),
            }
        } else {
            None
        };
        Some(
            ProfileUpdateRequest {
                first_name: owned(self.first_name.as_str()),
                last_name: owned(self.last_name.as_str()),
                display_name: owned(self.display_name.as_str()),
                username: string_of(&h),
                is_public: self.is_public,
                avatar_data_url: avatar,
            },
        )
    }

    /// The name at the top of the editor, given the account's email.
    pub fn title(&self, email: &Option<String>) -> (r: String)
        ensures
            r@ == profile_title_spec(
                self.display_name@,
                self.first_name@,
                self.last_name@,
                opt_text(*email),
            ),
    {
        if trimmed_chars(self.display_name.as_str()).len() > 0 {
            return owned(self.display_name.as_str());
        }
        let mut full = owned(self.first_name.as_str());
        push_str(&mut full, " ");
        push_str(&mut full, self.last_name.as_str());
        let composed = trimmed_string(full.as_str());
        if chars_of(composed.as_str()).len() > 0 {
            return composed;
        }
        match email {
            Some(e) => if chars_of(e.as_str()).len() > 0 {
                owned(e.as_str())
            } else {
                owned("Your name")
            },
            None => owned("Your name"),
        }
    }

    /// Whether the email is shown under the name: only when the profile has a
    /// name of its own and the account has an email.
    pub fn shows_email(&self, email: &Option<String>) -> (r: bool)
        ensures
            r == (has_name_spec(self.display_name@, self.first_name@, self.last_name@)
                && email is Some),
    {
        if email.is_none() {
            return false;
        }
        if trimmed_chars(self.display_name.as_str()).len() > 0 {
            return true;
        }
        let mut full = owned(self.first_name.as_str());
        push_str(&mut full, " ");
        push_str(&mut full, self.last_name.as_str());
        trimmed_chars(full.as_str()).len() > 0
    }

    /// The `@handle` line, shown only when a username is set.
    pub fn handle_label(&self) -> (r: Option<String>)
        ensures
            trim(self.username@).len() == 0 ==> r is None,
            trim(self.username@).len() > 0 ==> opt_is(r, "@"@ + lower_seq(trim(self.username@))),
    {
        let h = trimmed_chars(self.username.as_str());
        if h.len() == 0 {
            return None;
        }
        let l = lowercase_range(&h, 0, h.len());
        proof {
            assert(h@.subrange(0, h@.len() as int) =~= h@);
        }
        let mut r = owned("@");
        let ls = string_of(&l);
        push_str(&mut r, ls.as_str());
        Some(r)
    }

    /// The public profile link, shown for a public profile with a username.
    pub fn public_link(&self) -> (r: Option<String>)
        ensures
            !(self.is_public && trim(self.username@).len() > 0) ==> r is None,
            self.is_public && trim(self.username@).len() > 0 ==> opt_is(
                r,
                "/u/"@ + lower_seq(trim(self.username@)),
            ),
    {
        if !self.is_public {
            return None;
        }
        let h = trimmed_chars(self.username.as_str());
        if h.len() == 0 {
            return None;
        }
        let l = lowercase_range(&h, 0, h.len());
        proof {
            assert(h@.subrange(0, h@.len() as int) =~= h@);
        }
        let mut r = owned("/u/");
        let ls = string_of(&l);
        push_str(&mut r, ls.as_str());
        Some(r)
    }
}

/// The name on a public profile: the display name when it is not blank, else
/// first and last name, else the `@handle`.
pub open spec fn public_display_spec(
    display_name: Seq<char>,
    first_name: Seq<char>,
    last_name: Seq<char>,
    username: Seq<char>,
) -> Seq<char> {
    let composed = trim(first_name + " "@ + last_name);
    if trim(display_name).len() > 0 {
        display_name
    } else if composed.len() > 0 {
        composed
    } else {
        "@"@ + username
    }
}

/// The lines of a public profile card: the name, the full name when it adds
/// something to it, and the `@handle`.
pub struct PublicProfileLines {
    pub display: String,
    pub legal_name: Option<String>,
    pub handle: String,
}

pub fn public_profile_lines(
    display_name: &str,
    first_name: &str,
    last_name: &str,
    username: &str,
) -> (r: PublicProfileLines)
    ensures
        ({
            let display = public_display_spec(display_name@, first_name@, last_name@, username@);
            let composed = trim(first_name@ + " "@ + last_name@);
            &&& r.display@ == display
            &&& (composed.len() == 0 || composed == display) ==> r.legal_name is None
            &&& !(composed.len() == 0 || composed == display) ==> opt_is(r.legal_name, composed)
            &&& r.handle@ == "@"@ + username@
        }),
{
    let mut full = owned(first_name);
    push_str(&mut full, " ");
    push_str(&mut full, last_name);
    let composed = trimmed_string(full.as_str());
    let composed_empty = chars_of(composed.as_str()).len() == 0;
    let mut handle = owned("@");
    push_str(&mut handle, username);
    let display = if trimmed_chars(display_name).len() > 0 {
        owned(display_name)
    } else if !composed_empty {
        owned(composed.as_str())
    } else {
        owned(handle.as_str())
    };
    let legal_name = if composed_empty || str_eq(composed.as_str(), display.as_str()) {
        None
    } else {
        Some(composed)
    };
    PublicProfileLines { display, legal_name, handle }
}

} // verus!
