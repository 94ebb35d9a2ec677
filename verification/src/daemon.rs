//! The actuation client's typed core: its configuration, the URLs and
//! payloads it sends, what it concludes from each response status, and the
//! parsing pipelines that turn a model answer into a pixel coordinate or a
//! visible-text list.
//!
//! The HTTP calls themselves are made by the unverified shell, which hands
//! the status codes and bodies back to these functions.

use vstd::prelude::*;
use crate::decimal::Decimal;
use crate::digits::pixel_val;
use crate::errors::DaemonError;
use crate::coord_parse::first_coordinate;
use crate::coord_parse::coordinate_candidates;
use crate::text_parse::visible_text_of;
use crate::text_parse::quoted_texts;
use crate::strutil::trim_str;
use crate::strutil::trim_spec;
use crate::strutil::lower_of;
use crate::strutil::to_lowercase_str;
use crate::payload::daemon_url;
use crate::payload::daemon_url_spec;
use crate::payload::status_message;
use crate::payload::status_message_spec;
use crate::payload::joined;
use crate::payload::joined_spec;

verus! {

/// A 2xx response status.
pub open spec fn is_success_status(status: u16) -> bool {
    200 <= status < 300
}

pub fn success_status(status: u16) -> (r: bool)
    ensures
        r == is_success_status(status),
{
    200 <= status && status < 300
}

/// The default prompt prefix for locating an element.
pub open spec fn default_coordinate_prompt() -> Seq<char> {
    (
    "You are a helpful assistant that is to be used in finding coordinates of items in an image. You are finding coordinates so you can be part of a automated AI tool. You need to be as accurate as possible. Find the point coordinate of the center of the "
    )@
}

/// The default prompt for enumerating the visible text.
pub open spec fn default_visible_text_prompt() -> Seq<char> {
    ("find all the text on the screen. return it in an array list")@
}

/// The vision resolver's configuration: endpoint, credential, and the two
/// prompt templates. Immutable once handed to a `Daemon`.
#[derive(Clone)]
pub struct DaemonSettings {
    pub vision_coordinate_prompt: String,
    pub vision_llm_url: String,
    pub is_text_visible_prompt: String,
    pub vision_llm_auth_token: String,
}

impl DaemonSettings {
    pub fn new(vision_llm_url: &str) -> (s: Self)
        ensures
            s.vision_coordinate_prompt@ == default_coordinate_prompt(),
            s.is_text_visible_prompt@ == default_visible_text_prompt(),
            s.vision_llm_url@ == vision_llm_url@,
            s.vision_llm_auth_token@ == Seq::<char>::empty(),
    {
        DaemonSettings {
            vision_coordinate_prompt: String::from_str(
                "You are a helpful assistant that is to be used in finding coordinates of items in an image. You are finding coordinates so you can be part of a automated AI tool. You need to be as accurate as possible. Find the point coordinate of the center of the ",
            ),
            is_text_visible_prompt: String::from_str(
                "find all the text on the screen. return it in an array list",
            ),
            vision_llm_url: String::from_str(vision_llm_url),
            vision_llm_auth_token: String::new(),
        }
    }

    pub fn set_vision_coordinate_prompt(self, vision_coordinate_prompt: String) -> (s: Self)
        ensures
            s.vision_coordinate_prompt == vision_coordinate_prompt,
            s.vision_llm_url == self.vision_llm_url,
            s.is_text_visible_prompt == self.is_text_visible_prompt,
            s.vision_llm_auth_token == self.vision_llm_auth_token,
    {
        DaemonSettings { vision_coordinate_prompt, ..self }
    }

    pub fn set_is_text_visible_prompt(self, is_text_visible_prompt: String) -> (s: Self)
        ensures
            s.is_text_visible_prompt == is_text_visible_prompt,
            s.vision_llm_url == self.vision_llm_url,
            s.vision_coordinate_prompt == self.vision_coordinate_prompt,
            s.vision_llm_auth_token == self.vision_llm_auth_token,
    {
        DaemonSettings { is_text_visible_prompt, ..self }
    }

    pub fn set_vision_llm_auth_token(self, vision_llm_auth_token: String) -> (s: Self)
        ensures
            s.vision_llm_auth_token == vision_llm_auth_token,
            s.vision_llm_url == self.vision_llm_url,
            s.vision_coordinate_prompt == self.vision_coordinate_prompt,
            s.is_text_visible_prompt == self.is_text_visible_prompt,
    {
        DaemonSettings { vision_llm_auth_token, ..self }
    }
}

/// The actuation client core: the assigned port, once bound, and the
/// resolver configuration.
pub struct Daemon {
    pub port: Option<String>,
    pub settings: DaemonSettings,
}

impl Daemon {
    pub fn new(visual_llm_url: &str) -> (d: Self)
        ensures
            d.port is None,
            d.settings.vision_coordinate_prompt@ == default_coordinate_prompt(),
            d.settings.is_text_visible_prompt@ == default_visible_text_prompt(),
            d.settings.vision_llm_url@ == visual_llm_url@,
            d.settings.vision_llm_auth_token@ == Seq::<char>::empty(),
    {
        Daemon { port: None, settings: DaemonSettings::new(visual_llm_url) }
    }

    pub fn with_settings(settings: DaemonSettings) -> (d: Self)
        ensures
            d.port is None,
            d.settings == settings,
    {
        Daemon { port: None, settings }
    }

    pub fn set_port(&mut self, port: String)
        ensures
            final(self).port == Some(port),
            final(self).settings == old(self).settings,
    {
        self.port = Some(port);
    }

    /// A URL on the actuation endpoint, or `NotStarted` before a port is
    /// assigned.
    pub fn build_url(&self, endpoint: &str) -> (r: Result<String, DaemonError>)
        ensures
            (r is Err) == (self.port is None),
            r matches Err(e) ==> e is NotStarted,
            self.port matches Some(p) ==> (r matches Ok(u) && u@ == daemon_url_spec(
                p@,
                endpoint@,
            )),
    {
        match &self.port {
            Some(p) => Ok(daemon_url(p.as_str(), endpoint)),
            None => Err(DaemonError::NotStarted),
        }
    }

    /// The locate prompt for a selector: the configured prefix, a space,
    /// and the selector.
    pub fn coordinate_prompt_for(&self, selector: &str) -> (r: String)
        ensures
            r@ == self.settings.vision_coordinate_prompt@ + (" ")@ + selector@,
    {
        let mut s = self.settings.vision_coordinate_prompt.clone();
        s.append(" ");
        s.append(selector);
        proof {
            assert(s@ =~= self.settings.vision_coordinate_prompt@ + (" ")@ + selector@);
        }
        s
    }

    /// The first in-range coordinate candidate of a model answer.
    pub fn parse_coordinates(&self, content: &str) -> (r: Result<(Decimal, Decimal), DaemonError>)
        ensures
            (r is Err) == (coordinate_candidates(content@).len() == 0),
            r matches Err(e) ==> (e matches DaemonError::FailedToParseCoordinates(raw) && raw@
                == content@),
            r matches Ok(p) ==> ({
                &&& coordinate_candidates(content@).len() > 0
                &&& p.0.digits@ == coordinate_candidates(content@)[0].x_digits
                &&& p.0.scale as nat == coordinate_candidates(content@)[0].x_scale
                &&& p.1.digits@ == coordinate_candidates(content@)[0].y_digits
                &&& p.1.scale as nat == coordinate_candidates(content@)[0].y_scale
                &&& p.0.wf()
                &&& p.1.wf()
                &&& p.0.le_hundred_spec()
                &&& p.1.le_hundred_spec()
            }),
    {
        first_coordinate(content)
    }

    /// Convert a normalized candidate to pixel space; always succeeds for
    /// an in-range candidate.
    pub fn calculate_coordinates(&self, coords: (Decimal, Decimal), width: u32, height: u32) -> (r:
        Result<(u32, u32), DaemonError>)
        requires
            coords.0.wf(),
            coords.1.wf(),
            coords.0.le_hundred_spec(),
            coords.1.le_hundred_spec(),
        ensures
            r matches Ok(p) && p.0 == coords.0.pixel_spec(width) && p.1 == coords.1.pixel_spec(
                height,
            ),
    {
        let x = coords.0.to_pixel(width);
        let y = coords.1.to_pixel(height);
        Ok((x, y))
    }

    /// The whole coordinate pipeline on a model answer: trim it, take the
    /// first in-range candidate, convert to pixel space against the
    /// screenshot's dimensions.
    pub fn resolve_pixel(&self, content: &str, width: u32, height: u32) -> (r: Result<
        (u32, u32),
        DaemonError,
    >)
        ensures
            (r is Err) == (coordinate_candidates(trim_spec(content@)).len() == 0),
            r matches Err(e) ==> (e matches DaemonError::FailedToParseCoordinates(raw) && raw@
                == trim_spec(content@)),
            r matches Ok(p) ==> ({
                let cands = coordinate_candidates(trim_spec(content@));
                &&& cands.len() > 0
                &&& p.0 == pixel_val(cands[0].x_digits, cands[0].x_scale, width)
                &&& p.1 == pixel_val(cands[0].y_digits, cands[0].y_scale, height)
            }),
    {
        let trimmed = trim_str(content);
        match first_coordinate(trimmed.as_str()) {
            Ok(p) => {
                let x = p.0.to_pixel(width);
                let y = p.1.to_pixel(height);
                Ok((x, y))
            },
            Err(e) => Err(e),
        }
    }

    /// Every double-quoted fragment of a model answer, in source order.
    pub fn parse_visible_text(&self, content: &str) -> (r: Result<Vec<String>, DaemonError>)
        ensures
            (r is Err) == (quoted_texts(content@, 0).len() == 0),
            r matches Err(e) ==> (e matches DaemonError::FailedToParseExistence(raw) && raw@
                == content@),
            r matches Ok(v) ==> (v.deep_view() == quoted_texts(content@, 0) && v@.len() > 0),
    {
        visible_text_of(content)
    }

    /// The whole visible-text pipeline on a model answer: trim it, lower
    /// its case, extract the quoted fragments.
    pub fn visible_text_from_content(&self, content: &str) -> (r: Result<Vec<String>, DaemonError>)
        ensures
            (r is Err) == (quoted_texts(lower_of(trim_spec(content@)), 0).len() == 0),
            r matches Err(e) ==> (e matches DaemonError::FailedToParseExistence(raw) && raw@
                == lower_of(trim_spec(content@))),
            r matches Ok(v) ==> (v.deep_view() == quoted_texts(lower_of(trim_spec(content@)), 0)
                && v@.len() > 0),
    {
        let trimmed = trim_str(content);
        let lowered = to_lowercase_str(trimmed.as_str());
        visible_text_of(lowered.as_str())
    }

    /// Case-insensitive membership of `text` in the visible-text list.
    pub fn is_text_visible(&self, visible: &Vec<String>, text: &str) -> (r: bool)
        ensures
            r == exists|i: int|
                0 <= i < visible@.len() && #[trigger] lower_of(visible@[i]@) == lower_of(text@),
    {
        let wanted = to_lowercase_str(text);
        let mut i: usize = 0;
        while i < visible.len()
            invariant
                0 <= i <= visible@.len(),
                wanted@ == lower_of(text@),
                forall|k: int| 0 <= k < i ==> #[trigger] lower_of(visible@[k]@) != lower_of(text@),
            decreases visible@.len() - i,
        {
            let candidate = to_lowercase_str(visible[i].as_str());
            if candidate == wanted {
                return true;
            }
            i = i + 1;
        }
        false
    }
}

/// What a screenshot response means: the bytes on success, else
/// `ScreenshotFailed` carrying the status and body.
pub fn screenshot_outcome(status: u16, body: Vec<u8>, body_text: &str) -> (r: Result<
    Vec<u8>,
    DaemonError,
>)
    ensures
        is_success_status(status) ==> (r matches Ok(b) && b == body),
        !is_success_status(status) ==> (r matches Err(e) && e matches DaemonError::ScreenshotFailed(
            m,
        ) && m@ == status_message_spec(("Failed to retrieve screenshot. ")@, status, body_text@)),
{
    if success_status(status) {
        Ok(body)
    } else {
        Err(
            DaemonError::ScreenshotFailed(
                status_message("Failed to retrieve screenshot. ", status, body_text),
            ),
        )
    }
}

/// What a click response means.
pub fn click_outcome(status: u16, body_text: &str) -> (r: Result<(), DaemonError>)
    ensures
        is_success_status(status) ==> r is Ok,
        !is_success_status(status) ==> (r matches Err(e) && e matches DaemonError::Unexpected(m)
            && m@ == status_message_spec(("Failed to send click: ")@, status, body_text@)),
{
    if success_status(status) {
        Ok(())
    } else {
        Err(DaemonError::Unexpected(status_message("Failed to send click: ", status, body_text)))
    }
}

/// What a type-text response means.
pub fn type_text_outcome(status: u16, body_text: &str) -> (r: Result<(), DaemonError>)
    ensures
        is_success_status(status) ==> r is Ok,
        !is_success_status(status) ==> (r matches Err(e) && e matches DaemonError::Unexpected(m)
            && m@ == status_message_spec(("Failed to send text: ")@, status, body_text@)),
{
    if success_status(status) {
        Ok(())
    } else {
        Err(DaemonError::Unexpected(status_message("Failed to send text: ", status, body_text)))
    }
}

/// What a health-check response means.
pub fn health_outcome(status: u16) -> (r: Result<(), DaemonError>)
    ensures
        is_success_status(status) ==> r is Ok,
        !is_success_status(status) ==> (r matches Err(e) && e matches DaemonError::Unexpected(m)
            && m@ == ("Daemon health check failed")@),
{
    if success_status(status) {
        Ok(())
    } else {
        Err(DaemonError::Unexpected(String::from_str("Daemon health check failed")))
    }
}

/// What the vision endpoint's status means for a locate request.
pub fn find_request_outcome(status: u16) -> (r: Result<(), DaemonError>)
    ensures
        is_success_status(status) ==> r is Ok,
        !is_success_status(status) ==> (r matches Err(e) && e matches DaemonError::Unexpected(m)
            && m@ == ("Failed to process the find request.")@),
{
    if success_status(status) {
        Ok(())
    } else {
        Err(DaemonError::Unexpected(String::from_str("Failed to process the find request.")))
    }
}

/// What the vision endpoint's status means for a visibility request.
pub fn existence_request_outcome(status: u16) -> (r: Result<(), DaemonError>)
    ensures
        is_success_status(status) ==> r is Ok,
        !is_success_status(status) ==> (r matches Err(e) && e matches DaemonError::Unexpected(m)
            && m@ == ("Failed to process the existence check request.")@),
{
    if success_status(status) {
        Ok(())
    } else {
        Err(
            DaemonError::Unexpected(
                String::from_str("Failed to process the existence check request."),
            ),
        )
    }
}

/// The first choice's message content; an empty choice list is the fatal
/// "no choices" error naming the prompt.
pub fn first_choice_content(mut contents: Vec<String>, prompt: &str) -> (r: Result<
    String,
    DaemonError,
>)
    ensures
        (r is Err) == (contents@.len() == 0),
        r matches Ok(c) ==> (contents@.len() > 0 && c == contents@[0]),
        r matches Err(e) ==> (e matches DaemonError::Unexpected(m) && m@ == joined_spec(
            ("No choices in response. Prompt: ")@,
            prompt@,
        )),
{
    if contents.len() == 0 {
        Err(DaemonError::Unexpected(joined("No choices in response. Prompt: ", prompt)))
    } else {
        let first = contents.remove(0);
        Ok(first)
    }
}

} // verus!
