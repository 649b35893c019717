//! Information about the client that submitted a request, with validated
//! setters for the fields that have a format.
use vstd::prelude::*;
use crate::models::calculation_submission_result::opt_view;
use crate::text::{
    ascii_lower, ascii_upper, chars_of, contains_char, eq_ignore_ascii_case, eq_ignore_ascii_case_spec,
    is_ascii_alpha, is_u8_text, parses_as_u8, push_str, split_chars, split_spec, to_ascii_upper,
};

verus! {

/// Why a client-info field was refused.
#[derive(Debug, Clone, PartialEq, Eq)]
pub enum ClientInfoError {
    InvalidEmail { email: String },
    InvalidCountryCode { code: String },
    InvalidScreenDimensions { message: String },
    InvalidIpAddress { ip: String },
    ValidationError { message: String },
}

impl ClientInfoError {
    /// The message of the error.
    pub open spec fn text_spec(self) -> Seq<char> {
        match self {
            ClientInfoError::InvalidEmail { email } => "Invalid email format: "@ + email@,
            ClientInfoError::InvalidCountryCode { code } => "Invalid country ISO code: "@ + code@,
            ClientInfoError::InvalidScreenDimensions { message } => "Invalid screen dimensions: "@ + message@,
            ClientInfoError::InvalidIpAddress { ip } => "Invalid IP address: "@ + ip@,
            ClientInfoError::ValidationError { message } => "Client info validation error: "@ + message@,
        }
    }

    /// The message of the error (see `text_spec`).
    pub fn to_string(&self) -> (s: String)
        ensures
            s@ == self.text_spec(),
    {
        let (prefix, detail) = match self {
            ClientInfoError::InvalidEmail { email } => ("Invalid email format: ", email),
            ClientInfoError::InvalidCountryCode { code } => ("Invalid country ISO code: ", code),
            ClientInfoError::InvalidScreenDimensions { message } => ("Invalid screen dimensions: ", message),
            ClientInfoError::InvalidIpAddress { ip } => ("Invalid IP address: ", ip),
            ClientInfoError::ValidationError { message } => ("Client info validation error: ", message),
        };
        let mut s = String::from_str(prefix);
        push_str(&mut s, detail.as_str());
        s
    }
}

/// Details of the client behind a request.
#[derive(Debug, Clone, PartialEq)]
pub struct ClientInfo {
    pub id: Option<String>,
    pub plan: Option<String>,
    pub parent_id: Option<String>,
    pub ip: Option<String>,
    pub email: Option<String>,
    pub country_iso_code: Option<String>,
    pub location: Option<String>,
    pub language: Option<String>,
    pub time_zone: Option<String>,
    pub os: Option<String>,
    pub screen_width: Option<u32>,
    pub screen_height: Option<u32>,
    pub browser: Option<String>,
    pub device: Option<String>,
    pub device_id: Option<String>,
    pub version: Option<String>,
}

/// The contents of an optional string slice.
pub open spec fn opt_str_view(o: Option<&str>) -> Option<Seq<char>> {
    match o {
        Some(s) => Some(s@),
        None => None,
    }
}

fn as_opt_str(o: &Option<String>) -> (r: Option<&str>)
    ensures
        opt_str_view(r) == opt_view(*o),
{
    match o {
        Some(s) => Some(s.as_str()),
        None => None,
    }
}

/// An e-mail address as accepted: exactly one `@`, text on both sides of
/// it, and a `.` somewhere after it.
pub open spec fn valid_email(s: Seq<char>) -> bool {
    let parts = split_spec(s, '@');
    &&& parts.len() == 2
    &&& parts[0].len() > 0
    &&& parts[1].len() > 0
    &&& parts[1].contains('.')
}

/// An IPv4 address as accepted: four `.`-separated parts, each text that
/// parses as a `u8`.
pub open spec fn valid_ip(s: Seq<char>) -> bool {
    let parts = split_spec(s, '.');
    &&& parts.len() == 4
    &&& forall|k: int| 0 <= k < 4 ==> parses_as_u8(#[trigger] parts[k])
}

/// A country code as accepted: exactly two ASCII letters.
pub open spec fn valid_country_code(s: Seq<char>) -> bool {
    s.len() == 2 && is_ascii_alpha(s[0]) && is_ascii_alpha(s[1])
}

/// The text `or_unknown` gives for an optional field.
pub open spec fn or_unknown(o: Option<String>) -> Seq<char> {
    match o {
        Some(s) => s@,
        None => "unknown"@,
    }
}

impl ClientInfo {
    /// A client with no information.
    pub open spec fn empty_spec() -> ClientInfo {
        ClientInfo {
            id: None,
            plan: None,
            parent_id: None,
            ip: None,
            email: None,
            country_iso_code: None,
            location: None,
            language: None,
            time_zone: None,
            os: None,
            screen_width: None,
            screen_height: None,
            browser: None,
            device: None,
            device_id: None,
            version: None,
        }
    }

    pub fn new() -> (r: Self)
        ensures
            r == Self::empty_spec(),
    {
        ClientInfo {
            id: None,
            plan: None,
            parent_id: None,
            ip: None,
            email: None,
            country_iso_code: None,
            location: None,
            language: None,
            time_zone: None,
            os: None,
            screen_width: None,
            screen_height: None,
            browser: None,
            device: None,
            device_id: None,
            version: None,
        }
    }

    pub fn with_id(id: String) -> (r: Self)
        ensures
            r == (ClientInfo { id: Some(id), ..Self::empty_spec() }),
    {
        ClientInfo { id: Some(id), ..Self::new() }
    }

    /// Sets the e-mail: an empty one clears it, a valid one is stored, any
    /// other is refused and leaves the client unchanged.
    pub fn set_email(&mut self, email: String) -> (r: Result<(), ClientInfoError>)
        ensures
            email@.len() == 0 ==> r is Ok && *final(self) == (ClientInfo { email: None, ..*old(self) }),
            email@.len() > 0 && valid_email(email@) ==> r is Ok && *final(self) == (ClientInfo {
                email: Some(email),
                ..*old(self)
            }),
            email@.len() > 0 && !valid_email(email@) ==> r == Err::<(), ClientInfoError>(
                ClientInfoError::InvalidEmail { email },
            ) && *final(self) == *old(self),
    {
        if email.as_str().unicode_len() == 0 {
            self.email = None;
            return Ok(());
        }
        if self.is_valid_email(email.as_str()) {
            self.email = Some(email);
            Ok(())
        } else {
            Err(ClientInfoError::InvalidEmail { email })
        }
    }

    /// Sets the country code: an empty one clears it, two ASCII letters are
    /// stored in uppercase, anything else is refused and leaves the client
    /// unchanged.
    pub fn set_country_iso_code(&mut self, code: String) -> (r: Result<(), ClientInfoError>)
        ensures
            code@.len() == 0 ==> r is Ok && *final(self) == (ClientInfo { country_iso_code: None, ..*old(self) }),
            valid_country_code(code@) ==> r is Ok && opt_view(final(self).country_iso_code) == Some(
                code@.map_values(|c: char| ascii_upper(c)),
            ) && *final(self) == (ClientInfo { country_iso_code: final(self).country_iso_code, ..*old(self) }),
            code@.len() > 0 && !valid_country_code(code@) ==> r == Err::<(), ClientInfoError>(
                ClientInfoError::InvalidCountryCode { code },
            ) && *final(self) == *old(self),
    {
        let n = code.as_str().unicode_len();
        if n == 0 {
            self.country_iso_code = None;
            return Ok(());
        }
        let chars = chars_of(code.as_str());
        if n == 2 && is_ascii_letter(chars[0]) && is_ascii_letter(chars[1]) {
            let mut upper = String::new();
            push_char_upper(&mut upper, chars[0]);
            push_char_upper(&mut upper, chars[1]);
            proof {
                assert(upper@ =~= code@.map_values(|c: char| ascii_upper(c)));
            }
            self.country_iso_code = Some(upper);
            Ok(())
        } else {
            Err(ClientInfoError::InvalidCountryCode { code })
        }
    }

    /// Sets the screen size when both sides are within `1..=10000`.
    pub fn set_screen_dimensions(&mut self, width: u32, height: u32) -> (r: Result<(), ClientInfoError>)
        ensures
            (width == 0 || height == 0) ==> (r matches Err(ClientInfoError::InvalidScreenDimensions { message })
                && message@ == "Screen dimensions must be greater than 0"@),
            (width != 0 && height != 0 && (width > 10000 || height > 10000)) ==> (r matches Err(
                ClientInfoError::InvalidScreenDimensions { message },
            ) && message@ == "Screen dimensions seem unreasonably large"@),
            r is Err ==> *final(self) == *old(self),
            r is Ok <==> (1 <= width <= 10000 && 1 <= height <= 10000),
            r is Ok ==> *final(self) == (ClientInfo {
                screen_width: Some(width),
                screen_height: Some(height),
                ..*old(self)
            }),
    {
        if width == 0 || height == 0 {
            return Err(
                ClientInfoError::InvalidScreenDimensions {
                    message: String::from_str("Screen dimensions must be greater than 0"),
                },
            );
        }
        if width > 10000 || height > 10000 {
            return Err(
                ClientInfoError::InvalidScreenDimensions {
                    message: String::from_str("Screen dimensions seem unreasonably large"),
                },
            );
        }
        self.screen_width = Some(width);
        self.screen_height = Some(height);
        Ok(())
    }

    /// Sets the IP address: an empty one clears it, a valid IPv4 address is
    /// stored, any other is refused and leaves the client unchanged.
    pub fn set_ip(&mut self, ip: String) -> (r: Result<(), ClientInfoError>)
        ensures
            ip@.len() == 0 ==> r is Ok && *final(self) == (ClientInfo { ip: None, ..*old(self) }),
            ip@.len() > 0 && valid_ip(ip@) ==> r is Ok && *final(self) == (ClientInfo {
                ip: Some(ip),
                ..*old(self)
            }),
            ip@.len() > 0 && !valid_ip(ip@) ==> r == Err::<(), ClientInfoError>(
                ClientInfoError::InvalidIpAddress { ip },
            ) && *final(self) == *old(self),
    {
        if ip.as_str().unicode_len() == 0 {
            self.ip = None;
            return Ok(());
        }
        if self.is_valid_ip(ip.as_str()) {
            self.ip = Some(ip);
            Ok(())
        } else {
            Err(ClientInfoError::InvalidIpAddress { ip })
        }
    }

    /// A client is identifiable when it has an id, an e-mail or a device id.
    pub fn is_valid(&self) -> (r: bool)
        ensures
            r == (self.id is Some || self.email is Some || self.device_id is Some),
    {
        self.id.is_some() || self.email.is_some() || self.device_id.is_some()
    }

    /// `ClientInfo(id: I, location: L, device: D)`, with `unknown` for a
    /// missing field.
    pub fn summary(&self) -> (s: String)
        ensures
            s@ == "ClientInfo(id: "@ + or_unknown(self.id) + ", location: "@ + or_unknown(self.location)
                + ", device: "@ + or_unknown(self.device) + ")"@,
    {
        let mut s = String::from_str("ClientInfo(id: ");
        push_or_unknown(&mut s, &self.id);
        push_str(&mut s, ", location: ");
        push_or_unknown(&mut s, &self.location);
        push_str(&mut s, ", device: ");
        push_or_unknown(&mut s, &self.device);
        push_str(&mut s, ")");
        s
    }

    pub fn has_screen_info(&self) -> (r: bool)
        ensures
            r == (self.screen_width is Some && self.screen_height is Some),
    {
        self.screen_width.is_some() && self.screen_height.is_some()
    }

    pub fn screen_resolution(&self) -> (r: Option<(u32, u32)>)
        ensures
            r == (match (self.screen_width, self.screen_height) {
                (Some(w), Some(h)) => Some((w, h)),
                _ => None,
            }),
    {
        match (self.screen_width, self.screen_height) {
            (Some(width), Some(height)) => Some((width, height)),
            _ => None,
        }
    }

    /// Whether the stored country code equals `country_code` up to ASCII case.
    pub fn is_from_country(&self, country_code: &str) -> (r: bool)
        ensures
            r == (self.country_iso_code matches Some(c) && eq_ignore_ascii_case_spec(c@, country_code@)),
    {
        match &self.country_iso_code {
            Some(code) => eq_ignore_ascii_case(code.as_str(), country_code),
            None => false,
        }
    }

    pub fn id(self, id: String) -> (r: Self)
        ensures
            r == (ClientInfo { id: Some(id), ..self }),
    {
        ClientInfo { id: Some(id), ..self }
    }

    pub fn plan(self, plan: String) -> (r: Self)
        ensures
            r == (ClientInfo { plan: Some(plan), ..self }),
    {
        ClientInfo { plan: Some(plan), ..self }
    }

    pub fn parent_id(self, parent_id: String) -> (r: Self)
        ensures
            r == (ClientInfo { parent_id: Some(parent_id), ..self }),
    {
        ClientInfo { parent_id: Some(parent_id), ..self }
    }

    pub fn ip_unchecked(self, ip: String) -> (r: Self)
        ensures
            r == (ClientInfo { ip: Some(ip), ..self }),
    {
        ClientInfo { ip: Some(ip), ..self }
    }

    pub fn email_unchecked(self, email: String) -> (r: Self)
        ensures
            r == (ClientInfo { email: Some(email), ..self }),
    {
        ClientInfo { email: Some(email), ..self }
    }

    pub fn location(self, location: String) -> (r: Self)
        ensures
            r == (ClientInfo { location: Some(location), ..self }),
    {
        ClientInfo { location: Some(location), ..self }
    }

    pub fn language(self, language: String) -> (r: Self)
        ensures
            r == (ClientInfo { language: Some(language), ..self }),
    {
        ClientInfo { language: Some(language), ..self }
    }

    pub fn time_zone(self, time_zone: String) -> (r: Self)
        ensures
            r == (ClientInfo { time_zone: Some(time_zone), ..self }),
    {
        ClientInfo { time_zone: Some(time_zone), ..self }
    }

    pub fn os(self, os: String) -> (r: Self)
        ensures
            r == (ClientInfo { os: Some(os), ..self }),
    {
        ClientInfo { os: Some(os), ..self }
    }

    pub fn browser(self, browser: String) -> (r: Self)
        ensures
            r == (ClientInfo { browser: Some(browser), ..self }),
    {
        ClientInfo { browser: Some(browser), ..self }
    }

    pub fn device(self, device: String) -> (r: Self)
        ensures
            r == (ClientInfo { device: Some(device), ..self }),
    {
        ClientInfo { device: Some(device), ..self }
    }

    pub fn device_id(self, device_id: String) -> (r: Self)
        ensures
            r == (ClientInfo { device_id: Some(device_id), ..self }),
    {
        ClientInfo { device_id: Some(device_id), ..self }
    }

    pub fn version(self, version: String) -> (r: Self)
        ensures
            r == (ClientInfo { version: Some(version), ..self }),
    {
        ClientInfo { version: Some(version), ..self }
    }

    fn is_valid_email(&self, email: &str) -> (r: bool)
        ensures
            r == valid_email(email@),
    {
        let chars = chars_of(email);
        let parts = split_chars(&chars, '@');
        proof {
            assert(parts@.len() == split_spec(email@, '@').len());
        }
        if parts.len() != 2 {
            return false;
        }
        proof {
            assert(parts@[0]@ == split_spec(email@, '@')[0]);
            assert(parts@[1]@ == split_spec(email@, '@')[1]);
        }
        parts[0].len() > 0 && parts[1].len() > 0 && contains_char(&parts[1], '.')
    }

    fn is_valid_ip(&self, ip: &str) -> (r: bool)
        ensures
            r == valid_ip(ip@),
    {
        let chars = chars_of(ip);
        let parts = split_chars(&chars, '.');
        let ghost sp = split_spec(ip@, '.');
        proof {
            assert(parts@.len() == sp.len());
        }
        if parts.len() != 4 {
            return false;
        }
        let mut k: usize = 0;
        while k < 4
            invariant
                parts@.len() == 4,
                sp.len() == 4,
                sp == split_spec(ip@, '.'),
                forall|q: int| 0 <= q < 4 ==> #[trigger] parts@[q]@ == sp[q],
                k <= 4,
                forall|q: int| 0 <= q < k ==> parses_as_u8(#[trigger] sp[q]),
            decreases 4 - k,
        {
            if !is_u8_text(&parts[k]) {
                return false;
            }
            k = k + 1;
        }
        true
    }

    pub fn get_id(&self) -> (r: Option<&str>)
        ensures
            opt_str_view(r) == opt_view(self.id),
    {
        as_opt_str(&self.id)
    }

    pub fn get_plan(&self) -> (r: Option<&str>)
        ensures
            opt_str_view(r) == opt_view(self.plan),
    {
        as_opt_str(&self.plan)
    }

    pub fn get_parent_id(&self) -> (r: Option<&str>)
        ensures
            opt_str_view(r) == opt_view(self.parent_id),
    {
        as_opt_str(&self.parent_id)
    }

    pub fn get_ip(&self) -> (r: Option<&str>)
        ensures
            opt_str_view(r) == opt_view(self.ip),
    {
        as_opt_str(&self.ip)
    }

    pub fn get_email(&self) -> (r: Option<&str>)
        ensures
            opt_str_view(r) == opt_view(self.email),
    {
        as_opt_str(&self.email)
    }

    pub fn get_country_iso_code(&self) -> (r: Option<&str>)
        ensures
            opt_str_view(r) == opt_view(self.country_iso_code),
    {
        as_opt_str(&self.country_iso_code)
    }

    pub fn get_location(&self) -> (r: Option<&str>)
        ensures
            opt_str_view(r) == opt_view(self.location),
    {
        as_opt_str(&self.location)
    }

    pub fn get_language(&self) -> (r: Option<&str>)
        ensures
            opt_str_view(r) == opt_view(self.language),
    {
        as_opt_str(&self.language)
    }

    pub fn get_time_zone(&self) -> (r: Option<&str>)
        ensures
            opt_str_view(r) == opt_view(self.time_zone),
    {
        as_opt_str(&self.time_zone)
    }

    pub fn get_os(&self) -> (r: Option<&str>)
        ensures
            opt_str_view(r) == opt_view(self.os),
    {
        as_opt_str(&self.os)
    }

    pub fn get_screen_width(&self) -> (r: Option<u32>)
        ensures
            r == self.screen_width,
    {
        self.screen_width
    }

    pub fn get_screen_height(&self) -> (r: Option<u32>)
        ensures
            r == self.screen_height,
    {
        self.screen_height
    }

    pub fn get_browser(&self) -> (r: Option<&str>)
        ensures
            opt_str_view(r) == opt_view(self.browser),
    {
        as_opt_str(&self.browser)
    }

    pub fn get_device(&self) -> (r: Option<&str>)
        ensures
            opt_str_view(r) == opt_view(self.device),
    {
        as_opt_str(&self.device)
    }

    pub fn get_device_id(&self) -> (r: Option<&str>)
        ensures
            opt_str_view(r) == opt_view(self.device_id),
    {
        as_opt_str(&self.device_id)
    }

    pub fn get_version(&self) -> (r: Option<&str>)
        ensures
            opt_str_view(r) == opt_view(self.version),
    {
        as_opt_str(&self.version)
    }
}

fn is_ascii_letter(c: char) -> (r: bool)
    ensures
        r == is_ascii_alpha(c),
{
    ('a' <= c && c <= 'z') || ('A' <= c && c <= 'Z')
}

fn push_char_upper(s: &mut String, c: char)
    ensures
        final(s)@ == old(s)@.push(ascii_upper(c)),
{
    crate::text::push_char(s, to_ascii_upper(c));
}

fn push_or_unknown(s: &mut String, o: &Option<String>)
    ensures
        final(s)@ == old(s)@ + or_unknown(*o),
{
    match o {
        Some(v) => push_str(s, v.as_str()),
        None => push_str(s, "unknown"),
    }
}

impl Default for ClientInfo {
    fn default() -> (r: Self)
        ensures
            r == ClientInfo::empty_spec(),
    {
        ClientInfo::new()
    }
}

/// A country code that was accepted is recognised again by
/// `is_from_country`, in whatever ASCII case it was given.
pub proof fn law_country_code_round_trip(code: Seq<char>)
    requires
        valid_country_code(code),
    ensures
        eq_ignore_ascii_case_spec(code.map_values(|c: char| ascii_upper(c)), code),
{
    let up = code.map_values(|c: char| ascii_upper(c));
    assert forall|i: int| 0 <= i < code.len() implies ascii_lower(#[trigger] up[i]) == ascii_lower(code[i]) by {
        let c = code[i];
        if 'a' <= c <= 'z' {
            assert(ascii_upper(c) as int == c as int - 32);
        }
    }
}

} // verus!
