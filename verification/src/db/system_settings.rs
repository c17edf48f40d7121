//! The settings of the whole server.
use vstd::prelude::*;
use vstd::string::*;

use crate::clock::Timestamp;

verus! {

#[derive(Debug)]
pub struct SystemSettings {
    pub registration_open: bool,
    pub require_email_verification: bool,
    pub captcha_login_required: bool,
    pub captcha_registration_required: bool,
    pub max_sessions: i16,
    pub max_websocket_connections: i16,
    pub maintenance_enabled: bool,
    pub maintenance_message: String,
    pub updated_by: Option<i32>,
    pub updated_at: Timestamp,
}

/// The settings as a user of staff wants them.
#[derive(Debug)]
pub struct SystemSettingsUpdate<'a> {
    pub registration_open: bool,
    pub require_email_verification: bool,
    pub captcha_login_required: bool,
    pub captcha_registration_required: bool,
    pub max_sessions: i16,
    pub max_websocket_connections: i16,
    pub maintenance_enabled: bool,
    pub maintenance_message: &'a str,
    pub updated_by: i32,
}

impl SystemSettings {
    /// Whether nothing is asked of users that the server cannot do.
    pub open spec fn can_be_met(self, captcha_available: bool, email_available: bool) -> bool {
        &&& self.require_email_verification ==> email_available
        &&& self.captcha_login_required ==> captcha_available
        &&& self.captcha_registration_required ==> captcha_available
    }

    /// The settings without what the server cannot do.
    pub open spec fn met(
        self,
        captcha_available: bool,
        email_available: bool,
        now: Timestamp,
    ) -> Self {
        if self.can_be_met(captcha_available, email_available) {
            self
        } else {
            SystemSettings {
                require_email_verification: self.require_email_verification && email_available,
                captcha_login_required: self.captcha_login_required && captcha_available,
                captcha_registration_required: self.captcha_registration_required
                    && captcha_available,
                updated_at: now,
                ..self
            }
        }
    }
}

/// Switches off what the server cannot do. Settings that need no change keep their date.
pub fn disable_unavailable_auth_features(
    settings: SystemSettings,
    captcha_available: bool,
    email_available: bool,
    now: Timestamp,
) -> (r: SystemSettings)
    ensures
        r == settings.met(captcha_available, email_available, now),
{
    let email_fails = !email_available && settings.require_email_verification;
    let captcha_fails = !captcha_available && (settings.captcha_login_required
        || settings.captcha_registration_required);
    if !email_fails && !captcha_fails {
        return settings;
    }
    SystemSettings {
        registration_open: settings.registration_open,
        require_email_verification: settings.require_email_verification && email_available,
        captcha_login_required: settings.captcha_login_required && captcha_available,
        captcha_registration_required: settings.captcha_registration_required && captcha_available,
        max_sessions: settings.max_sessions,
        max_websocket_connections: settings.max_websocket_connections,
        maintenance_enabled: settings.maintenance_enabled,
        maintenance_message: settings.maintenance_message,
        updated_by: settings.updated_by,
        updated_at: now,
    }
}

/// What remains can be met, and stays as it is from then on.
pub proof fn met_settings_can_be_met(
    settings: SystemSettings,
    captcha_available: bool,
    email_available: bool,
    now: Timestamp,
    later: Timestamp,
)
    ensures
        settings.met(captcha_available, email_available, now).can_be_met(
            captcha_available,
            email_available,
        ),
        settings.met(captcha_available, email_available, now).met(
            captcha_available,
            email_available,
            later,
        ) == settings.met(captcha_available, email_available, now),
{
}

/// The settings after a user of staff has changed them.
pub fn update(data: &SystemSettingsUpdate<'_>, now: Timestamp) -> (r: SystemSettings)
    ensures
        r.maintenance_message@ == data.maintenance_message@,
        r == (SystemSettings {
            registration_open: data.registration_open,
            require_email_verification: data.require_email_verification,
            captcha_login_required: data.captcha_login_required,
            captcha_registration_required: data.captcha_registration_required,
            max_sessions: data.max_sessions,
            max_websocket_connections: data.max_websocket_connections,
            maintenance_enabled: data.maintenance_enabled,
            maintenance_message: r.maintenance_message,
            updated_by: Some(data.updated_by),
            updated_at: now,
        }),
{
    SystemSettings {
        registration_open: data.registration_open,
        require_email_verification: data.require_email_verification,
        captcha_login_required: data.captcha_login_required,
        captcha_registration_required: data.captcha_registration_required,
        max_sessions: data.max_sessions,
        max_websocket_connections: data.max_websocket_connections,
        maintenance_enabled: data.maintenance_enabled,
        maintenance_message: data.maintenance_message.to_owned(),
        updated_by: Some(data.updated_by),
        updated_at: now,
    }
}

/// Settings can be met exactly where each service that they ask for is there. Those that cannot be met
/// lose what asks for a missing service, and nothing else, and note the time.
pub proof fn settings_ask_for_services(
    settings: SystemSettings,
    captcha_available: bool,
    email_available: bool,
    now: Timestamp,
)
    ensures
        settings.can_be_met(captcha_available, email_available) <==> (email_available
            || !settings.require_email_verification) && (captcha_available || (
        !settings.captcha_login_required && !settings.captcha_registration_required)),
        ({
            let met = settings.met(captcha_available, email_available, now);
            &&& met.require_email_verification <==> settings.require_email_verification
                && email_available
            &&& met.captcha_login_required <==> settings.captcha_login_required && captcha_available
            &&& met.captcha_registration_required <==> settings.captcha_registration_required
                && captcha_available
            &&& met.registration_open == settings.registration_open && met.max_sessions
                == settings.max_sessions && met.max_websocket_connections
                == settings.max_websocket_connections && met.maintenance_enabled
                == settings.maintenance_enabled && met.maintenance_message
                == settings.maintenance_message && met.updated_by == settings.updated_by
            &&& settings.can_be_met(captcha_available, email_available) ==> met.updated_at
                == settings.updated_at
            &&& !settings.can_be_met(captcha_available, email_available) ==> met.updated_at == now
        }),
{
}

} // verus!
