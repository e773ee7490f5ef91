//! Markup of administration panel pages: the settings page, the page of
//! one session with its history, and the mirrors page. The texts of the
//! markup are the constants below. Stored texts go in as they are, except
//! the service name, description and welcome message of the branding
//! form, which are escaped.

use vstd::prelude::*;
use crate::admin::{
    event_class, event_icon, hist, history_views, BrandingConfig, CaptchaPoolConfig, CaptchaTypeSettings, HistoryEntry, HistoryEventType,
    HistoryView, MirrorInfo, SessionInfo,
};
use crate::format::{ago_text, duration_text, escaped, format_duration, format_timestamp_at, html_escape};
use crate::gateway::ADMIN_PATH;
use crate::text::{chars_of, decimal, has_prefix, owned, starts_with, str_eq, string_of, u64_to_decimal};
use crate::tier::{lowercase, to_lowercase};

verus! {

// The page title and the help card; the tutorial link holds the panel path.
pub const SETTINGS_HELP_0: &'static str = r#"
        <h2>Settings</h2>

        <div class="card" style="background: var(--bg-elevated); border-color: var(--gold-primary); margin-bottom: 20px;">
            <h3>Need Help?</h3>
            <p style="color: var(--text-secondary); margin-bottom: 15px;">
                New to Fortify? Check out our comprehensive tutorial that explains every feature and setting.
            </p>
            <a href=""#;
pub const SETTINGS_HELP_1: &'static str = r#"/tutorial" class="btn" style="background: var(--gold-primary); color: var(--bg-deep); font-weight: bold;">
                View Tutorial &amp; Documentation
            </a>
        </div>

        "#;
// The card about behavioural analysis and the branding form: panel path, three escaped texts, each colour twice, the custom CSS.
pub const SETTINGS_BRANDING_0: &'static str = r#"<div class="card" style="background: var(--bg-elevated); border-color: var(--gold-muted);">
            <h3>About Behavioral Analysis</h3>
            <p style="color: var(--text-secondary); line-height: 1.6;">
                The Behavioral Analysis Engine monitors request patterns to detect automated threats,
                scrapers, and attack attempts <strong>without using JavaScript</strong>.
            </p>
            <p style="color: var(--text-secondary); line-height: 1.6; margin-top: 10px;">
                <strong>Detection modules:</strong>
            </p>
            <ul style="color: var(--text-secondary); margin: 10px 0 10px 20px; line-height: 1.8;">
                <li><strong>User-Agent Analysis</strong> - Detects non-Tor browser and bot User-Agents</li>
                <li><strong>Referer Analysis</strong> - Flags suspicious or impossible referer headers</li>
                <li><strong>Path Analysis</strong> - Detects attack paths (../, .env, admin probes)</li>
                <li><strong>Enumeration Detection</strong> - Catches rapid unique path scanning</li>
                <li><strong>Form Tracking</strong> - Monitors form submission flood attempts</li>
                <li><strong>Payload Analysis</strong> - Flags abnormal request body sizes</li>
            </ul>
            <p style="color: var(--text-muted); font-size: 0.9em; margin-top: 15px;">
                All detection is Tor Browser "safest mode" compatible. Missing referers and standardized UAs are treated as normal.
            </p>
        </div>

        <!-- BRANDING CONFIGURATION -->
        <div class="card" style="border-color: var(--gold-primary); background: var(--bg-elevated);">
            <h3>🏰 Branding Configuration</h3>
            <p style="color: var(--text-muted); margin-bottom: 20px;">
                Customize the appearance of your Gate and CAPTCHA pages.
            </p>

            <form method="POST" action=""#;
pub const SETTINGS_BRANDING_1: &'static str = r#"/settings/branding">
                <div style="display: grid; grid-template-columns: 1fr 1fr; gap: 20px; margin-bottom: 20px;">
                    <div>
                        <label style="display: block; color: var(--gold-primary); margin-bottom: 5px; font-weight: bold;">Service Name</label>
                        <input type="text" name="service_name" value=""#;
pub const SETTINGS_BRANDING_2: &'static str = r#"" maxlength="100" style="width: 100%; padding: 10px; background: var(--bg-deep); border: 1px solid var(--border-subtle); color: var(--text-primary);">
                        <small style="color: var(--text-muted);">Displayed as the main title</small>
                    </div>
                    <div>
                        <label style="display: block; color: var(--gold-primary); margin-bottom: 5px; font-weight: bold;">Description</label>
                        <input type="text" name="description" value=""#;
pub const SETTINGS_BRANDING_3: &'static str = r#"" maxlength="200" style="width: 100%; padding: 10px; background: var(--bg-deep); border: 1px solid var(--border-subtle); color: var(--text-primary);">
                        <small style="color: var(--text-muted);">Shown below the title</small>
                    </div>
                </div>

                <div style="margin-bottom: 20px;">
                    <label style="display: block; color: var(--gold-primary); margin-bottom: 5px; font-weight: bold;">Welcome Message</label>
                    <textarea name="welcome_message" rows="2" style="width: 100%; padding: 10px; background: var(--bg-deep); border: 1px solid var(--border-subtle); color: var(--text-primary);">"#;
pub const SETTINGS_BRANDING_4: &'static str = r#"</textarea>
                    <small style="color: var(--text-muted);">Instructions shown on the CAPTCHA page</small>
                </div>

                <h4 style="color: var(--amber); margin-bottom: 15px;">Color Scheme</h4>
                <div style="display: grid; grid-template-columns: 1fr 1fr 1fr; gap: 15px; margin-bottom: 20px;">
                    <div>
                        <label style="display: block; color: var(--gold-primary); margin-bottom: 5px;">Primary Color</label>
                        <div style="display: flex; gap: 10px; align-items: center;">
                            <input type="color" name="primary_color_picker" value=""#;
pub const SETTINGS_BRANDING_5: &'static str = r#"" style="width: 50px; height: 35px; border: none; cursor: pointer;">
                            <input type="text" name="primary_color" value=""#;
pub const SETTINGS_BRANDING_6: &'static str = r#"" maxlength="7" style="flex: 1; padding: 8px; background: var(--bg-deep); border: 1px solid var(--border-subtle); color: var(--text-primary); font-family: monospace;">
                        </div>
                    </div>
                    <div>
                        <label style="display: block; color: var(--gold-primary); margin-bottom: 5px;">Secondary Color</label>
                        <div style="display: flex; gap: 10px; align-items: center;">
                            <input type="color" name="secondary_color_picker" value=""#;
pub const SETTINGS_BRANDING_7: &'static str = r#"" style="width: 50px; height: 35px; border: none; cursor: pointer;">
                            <input type="text" name="secondary_color" value=""#;
pub const SETTINGS_BRANDING_8: &'static str = r#"" maxlength="7" style="flex: 1; padding: 8px; background: var(--bg-deep); border: 1px solid var(--border-subtle); color: var(--text-primary); font-family: monospace;">
                        </div>
                    </div>
                    <div>
                        <label style="display: block; color: var(--gold-primary); margin-bottom: 5px;">Tertiary Color</label>
                        <div style="display: flex; gap: 10px; align-items: center;">
                            <input type="color" name="tertiary_color_picker" value=""#;
pub const SETTINGS_BRANDING_9: &'static str = r#"" style="width: 50px; height: 35px; border: none; cursor: pointer;">
                            <input type="text" name="tertiary_color" value=""#;
pub const SETTINGS_BRANDING_10: &'static str = r#"" maxlength="7" style="flex: 1; padding: 8px; background: var(--bg-deep); border: 1px solid var(--border-subtle); color: var(--text-primary); font-family: monospace;">
                        </div>
                    </div>
                </div>

                <div style="margin-bottom: 20px;">
                    <label style="display: block; color: var(--gold-primary); margin-bottom: 5px; font-weight: bold;">Custom CSS (Advanced)</label>
                    <textarea name="custom_css" rows="4" style="width: 100%; padding: 10px; background: var(--bg-deep); border: 1px solid var(--border-subtle); color: var(--text-primary); font-family: monospace; font-size: 0.9em;" placeholder="/* Additional CSS rules */">"#;
pub const SETTINGS_BRANDING_11: &'static str = r#"</textarea>
                    <small style="color: var(--text-muted);">Optional custom styles injected into Gate/CAPTCHA pages</small>
                </div>

                <button type="submit" class="btn btn-success">Save Branding Settings</button>
            </form>
        </div>

        "#;
// The pool form (panel path, eight numbers), the forms of the kinds, and the configuration card (panel path twice).
pub const SETTINGS_POOL_0: &'static str = r#"<!-- CAPTCHA POOL CONFIGURATION -->
        <div class="card" style="border-color: var(--amber); background: var(--bg-elevated);">
            <h3>Captcha Pool Settings</h3>
            <p style="color: var(--text-muted); margin-bottom: 20px;">
                Configure the CAPTCHA pool size, difficulty, and behavior settings.
            </p>

            <form method="POST" action=""#;
pub const SETTINGS_POOL_1: &'static str = r#"/settings/captcha-pool">
                <div style="display: grid; grid-template-columns: 1fr 1fr 1fr; gap: 15px; margin-bottom: 20px;">
                    <div>
                        <label style="display: block; color: var(--gold-primary); margin-bottom: 5px;">Target Pool Size</label>
                        <input type="number" name="pool_size" value=""#;
pub const SETTINGS_POOL_2: &'static str = r#"" min="50" max="5000" style="width: 100%; padding: 10px; background: var(--bg-deep); border: 1px solid var(--border-subtle); color: var(--text-primary);">
                        <small style="color: var(--text-muted);">Target CAPTCHAs to maintain</small>
                    </div>
                    <div>
                        <label style="display: block; color: var(--gold-primary); margin-bottom: 5px;">Min Pool Size</label>
                        <input type="number" name="min_pool_size" value=""#;
pub const SETTINGS_POOL_3: &'static str = r#"" min="10" max="1000" style="width: 100%; padding: 10px; background: var(--bg-deep); border: 1px solid var(--border-subtle); color: var(--text-primary);">
                        <small style="color: var(--text-muted);">Emergency generation trigger</small>
                    </div>
                    <div>
                        <label style="display: block; color: var(--gold-primary); margin-bottom: 5px;">Max Pool Size</label>
                        <input type="number" name="max_pool_size" value=""#;
pub const SETTINGS_POOL_4: &'static str = r#"" min="100" max="10000" style="width: 100%; padding: 10px; background: var(--bg-deep); border: 1px solid var(--border-subtle); color: var(--text-primary);">
                        <small style="color: var(--text-muted);">Maximum pool capacity</small>
                    </div>
                </div>

                <div style="display: grid; grid-template-columns: 1fr 1fr 1fr; gap: 15px; margin-bottom: 20px;">
                    <div>
                        <label style="display: block; color: var(--gold-primary); margin-bottom: 5px;">Difficulty (1-10)</label>
                        <input type="number" name="difficulty" value=""#;
pub const SETTINGS_POOL_5: &'static str = r#"" min="1" max="10" style="width: 100%; padding: 10px; background: var(--bg-deep); border: 1px solid var(--border-subtle); color: var(--text-primary);">
                        <small style="color: var(--text-muted);">Visual complexity</small>
                    </div>
                    <div>
                        <label style="display: block; color: var(--gold-primary); margin-bottom: 5px;">Timeout (seconds)</label>
                        <input type="number" name="timeout_seconds" value=""#;
pub const SETTINGS_POOL_6: &'static str = r#"" min="30" max="600" style="width: 100%; padding: 10px; background: var(--bg-deep); border: 1px solid var(--border-subtle); color: var(--text-primary);">
                        <small style="color: var(--text-muted);">Time to solve CAPTCHA</small>
                    </div>
                    <div>
                        <label style="display: block; color: var(--gold-primary); margin-bottom: 5px;">Max Attempts</label>
                        <input type="number" name="max_attempts" value=""#;
pub const SETTINGS_POOL_7: &'static str = r#"" min="1" max="10" style="width: 100%; padding: 10px; background: var(--bg-deep); border: 1px solid var(--border-subtle); color: var(--text-primary);">
                        <small style="color: var(--text-muted);">Attempts before failure</small>
                    </div>
                </div>

                <div style="display: grid; grid-template-columns: 1fr 1fr; gap: 15px; margin-bottom: 20px;">
                    <div>
                        <label style="display: block; color: var(--gold-primary); margin-bottom: 5px;">Rotation Percent</label>
                        <input type="number" name="rotation_percent" value=""#;
pub const SETTINGS_POOL_8: &'static str = r#"" min="0" max="100" style="width: 100%; padding: 10px; background: var(--bg-deep); border: 1px solid var(--border-subtle); color: var(--text-primary);">
                        <small style="color: var(--text-muted);">% of pool to refresh each cycle</small>
                    </div>
                    <div>
                        <label style="display: block; color: var(--gold-primary); margin-bottom: 5px;">Rotation Interval (days)</label>
                        <input type="number" name="rotation_interval_days" value=""#;
pub const SETTINGS_POOL_9: &'static str = r#"" min="1" max="90" style="width: 100%; padding: 10px; background: var(--bg-deep); border: 1px solid var(--border-subtle); color: var(--text-primary);">
                        <small style="color: var(--text-muted);">Days between pool rotations</small>
                    </div>
                </div>

                <button type="submit" class="btn btn-success">Save Pool Settings</button>
            </form>
        </div>

        <!-- PER-TYPE CAPTCHA CONFIGURATION -->
        <div class="card" style="border-color: var(--amber); background: var(--bg-elevated);">
            <h3>Per-Type CAPTCHA Settings</h3>
            <p style="color: var(--text-muted); margin-bottom: 20px;">
                Configure individual CAPTCHA types - enable/disable, difficulty, and pool allocation.
            </p>

            "#;
pub const SETTINGS_POOL_10: &'static str = r#"
        </div>

        <!-- CONFIGURATION MANAGEMENT -->
        <div class="card" style="border-color: var(--sage); background: var(--bg-elevated);">
            <h3>Configuration Management</h3>
            <p style="color: var(--text-muted); margin-bottom: 20px;">
                Save settings to disk or reload from the configuration file.
            </p>
            <div style="display: flex; gap: 15px;">
                <form method="POST" action=""#;
pub const SETTINGS_POOL_11: &'static str = r#"/config/save" style="margin: 0;">
                    <button type="submit" class="btn btn-success">💾 Save Config to Disk</button>
                </form>
                <form method="POST" action=""#;
pub const SETTINGS_POOL_12: &'static str = r#"/config/reload" style="margin: 0;">
                    <button type="submit" class="btn" style="background: var(--amber); color: var(--bg-deep);">🔄 Reload Config from Disk</button>
                </form>
            </div>
            <p style="color: var(--text-muted); font-size: 0.85em; margin-top: 15px;">
                <strong>Precedence:</strong> TUI wizard → config file → runtime changes (Control Panel)
            </p>
        </div>
    "#;
// The form of one kind of CAPTCHA: panel path, name, check mark, name, status colour and text, three numbers.
pub const TYPE_FORM_0: &'static str = r#"
            <form method="POST" action=""#;
pub const TYPE_FORM_1: &'static str = r#"/settings/captcha-type" style="border: 1px solid var(--border-subtle); padding: 15px; margin-bottom: 10px; border-radius: 8px;">
                <input type="hidden" name="type_name" value=""#;
pub const TYPE_FORM_2: &'static str = r#"">
                <div style="display: flex; align-items: center; gap: 15px; margin-bottom: 10px;">
                    <input type="checkbox" name="enabled" value="1" "#;
pub const TYPE_FORM_3: &'static str = r#" style="width: 20px; height: 20px; accent-color: var(--gold-primary);">
                    <strong style="flex: 1; color: var(--text-primary);">"#;
pub const TYPE_FORM_4: &'static str = r#"</strong>
                    <span style="color: "#;
pub const TYPE_FORM_5: &'static str = r#"; font-size: 0.85em;">"#;
pub const TYPE_FORM_6: &'static str = r#"</span>
                </div>
                <div style="display: grid; grid-template-columns: repeat(3, 1fr); gap: 10px;">
                    <div>
                        <label style="display: block; color: var(--text-muted); font-size: 0.75em;">Options</label>
                        <input type="number" name="option_count" value=""#;
pub const TYPE_FORM_7: &'static str = r#"" min="0" max="10" style="width: 100%; padding: 5px; background: var(--bg-deep); border: 1px solid var(--border-subtle); color: var(--text-primary);">
                    </div>
                    <div>
                        <label style="display: block; color: var(--text-muted); font-size: 0.75em;">Difficulty (1-3)</label>
                        <input type="number" name="difficulty" value=""#;
pub const TYPE_FORM_8: &'static str = r#"" min="1" max="3" style="width: 100%; padding: 5px; background: var(--bg-deep); border: 1px solid var(--border-subtle); color: var(--text-primary);">
                    </div>
                    <div>
                        <label style="display: block; color: var(--text-muted); font-size: 0.75em;">Min Pool</label>
                        <input type="number" name="min_pool_size" value=""#;
pub const TYPE_FORM_9: &'static str = r#"" min="0" max="500" style="width: 100%; padding: 5px; background: var(--bg-deep); border: 1px solid var(--border-subtle); color: var(--text-primary);">
                    </div>
                </div>
                <button type="submit" class="btn btn-success" style="margin-top: 10px; padding: 5px 15px; font-size: 0.85em;">Save</button>
            </form>
            "#;
// The page of one session.
pub const SESSION_PAGE_0: &'static str = r#"
        <h2>Session: "#;
pub const SESSION_PAGE_1: &'static str = r#"</h2>

        <div class="card">
            <h3>Session Info</h3>
            <table>
                <tr><td>Session ID</td><td><code>"#;
pub const SESSION_PAGE_2: &'static str = r#"</code></td></tr>
                <tr><td>Trust Tier</td><td class=""#;
pub const SESSION_PAGE_3: &'static str = r#"">"#;
pub const SESSION_PAGE_4: &'static str = r#"</td></tr>
                <tr><td>Current Node</td><td>"#;
pub const SESSION_PAGE_5: &'static str = r#"</td></tr>
                <tr><td>Current Mirror</td><td>"#;
pub const SESSION_PAGE_6: &'static str = r#"</td></tr>
                <tr><td>Page Loads</td><td>"#;
pub const SESSION_PAGE_7: &'static str = r#"</td></tr>
                <tr><td>Request Count</td><td>"#;
pub const SESSION_PAGE_8: &'static str = r#"</td></tr>
                <tr><td>Total Traffic</td><td>"#;
pub const SESSION_PAGE_9: &'static str = r#"</td></tr>
                <tr><td>Violations</td><td>"#;
pub const SESSION_PAGE_10: &'static str = r#"</td></tr>
                <tr><td>Demotion Count</td><td>"#;
pub const SESSION_PAGE_11: &'static str = r#"</td></tr>
                <tr><td>Created</td><td>"#;
pub const SESSION_PAGE_12: &'static str = r#"</td></tr>
                <tr><td>Last Activity</td><td>"#;
pub const SESSION_PAGE_13: &'static str = r#"</td></tr>
                <tr><td>Banned</td><td>"#;
pub const SESSION_PAGE_14: &'static str = r#"</td></tr>
                <tr><td>Killed</td><td>"#;
pub const SESSION_PAGE_15: &'static str = r#"</td></tr>
            </table>

            <div class="actions">
                <form method="POST" action=""#;
pub const SESSION_PAGE_16: &'static str = r#"/session/action">
                    <input type="hidden" name="session_id" value=""#;
pub const SESSION_PAGE_17: &'static str = r#"">
                    <button type="submit" name="action" value="to_threat" class="btn btn-warning">Move to Threat Pool</button>
                    <button type="submit" name="action" value="to_healthy" class="btn btn-success">Move to Healthy Pool</button>
                    <button type="submit" name="action" value="ban" class="btn btn-danger">Ban Session</button>
                    <button type="submit" name="action" value="unban" class="btn">Unban</button>
                    <button type="submit" name="action" value="delete" class="btn btn-danger">Delete Session</button>
                </form>
            </div>
        </div>

        "#;
pub const SESSION_PAGE_18: &'static str = r#"

        <div class="card">
            <h3>📜 Session History (Last 50)</h3>
            <p style="color: var(--text-muted); font-size: 0.85em; margin-bottom: 15px;">Page requests, tier changes, demotions, bans, and system events</p>
            <div class="history-list">
                "#;
pub const SESSION_PAGE_19: &'static str = r#"
            </div>
        </div>

        <a href=""#;
pub const SESSION_PAGE_20: &'static str = r#"/sessions" class="btn">← Back to Sessions</a>
    "#;
// A history line of a page request: age, status class, status, method, path.
pub const HISTORY_REQUEST_0: &'static str = r#"<div class="history-item">
                        <span class="timestamp">"#;
pub const HISTORY_REQUEST_1: &'static str = r#"</span>
                        <span class=""#;
pub const HISTORY_REQUEST_2: &'static str = r#"">"#;
pub const HISTORY_REQUEST_3: &'static str = r#"</span>
                        <strong>"#;
pub const HISTORY_REQUEST_4: &'static str = r#"</strong> "#;
pub const HISTORY_REQUEST_5: &'static str = r#"
                    </div>"#;
// A history line of an event: class, age, icon, who, what, reason.
pub const HISTORY_EVENT_0: &'static str = r#"<div class="history-item "#;
pub const HISTORY_EVENT_1: &'static str = r#"">
                        <span class="timestamp">"#;
pub const HISTORY_EVENT_2: &'static str = r#"</span>
                        <span style="font-size: 1.2em;">"#;
pub const HISTORY_EVENT_3: &'static str = r#"</span>
                        <strong>["#;
pub const HISTORY_EVENT_4: &'static str = r#"]</strong> "#;
pub const HISTORY_EVENT_5: &'static str = r#"
                    </div>"#;
pub const HISTORY_EVENT_6: &'static str = r#""#;
/// The behaviour card of a session with no behaviour data.
pub const NO_BEHAVIOR_CARD: &'static str = r#"
        <div class="card" style="border-color: var(--border-subtle); opacity: 0.7;">
            <h3>Behavioral Analysis</h3>
            <p style="color: var(--text-muted);">No behavioral data collected for this session yet.</p>
            <p style="color: var(--text-muted); font-size: 0.9em;">Behavioral analysis runs on each request. Data will appear as the session makes requests.</p>
        </div>
        "#;
/// The badge of a mirror with proof of work on.
pub const POW_BADGE: &'static str = r#"<span style="background: rgba(125,154,120,0.2); color: var(--sage); padding: 2px 6px; font-size: 0.65em; border-radius: 3px; margin-left: 5px;">PoW</span>"#;
/// The badge of a standby mirror.
pub const STANDBY_BADGE: &'static str = r#"<span style="background: rgba(212,168,75,0.2); color: var(--amber); padding: 2px 6px; font-size: 0.65em; border-radius: 3px; margin-left: 5px;">STANDBY</span>"#;
// The buttons of an active mirror: address, then panel path, id and address twice.
pub const ACTIVE_ACTIONS_0: &'static str = r#"<a href="http://"#;
pub const ACTIVE_ACTIONS_1: &'static str = r#"" target="_blank" class="btn" style="font-size: 0.8em;">Visit</a>
                    <form method="POST" action=""#;
pub const ACTIVE_ACTIONS_2: &'static str = r#"/mirror/action" style="display: inline; margin: 0;">
                        <input type="hidden" name="action" value="pause">
                        <input type="hidden" name="mirror_id" value=""#;
pub const ACTIVE_ACTIONS_3: &'static str = r#"">
                        <input type="hidden" name="onion_address" value=""#;
pub const ACTIVE_ACTIONS_4: &'static str = r#"">
                        <button type="submit" class="btn" style="background: rgba(212,168,75,0.2); border-color: var(--amber); color: var(--amber); font-size: 0.8em;" onclick="return confirm('PAUSE this mirror? Users will be redirected to other mirrors.');">⏸ Pause</button>
                    </form>
                    <form method="POST" action=""#;
pub const ACTIVE_ACTIONS_5: &'static str = r#"/mirror/action" style="display: inline; margin: 0;">
                        <input type="hidden" name="action" value="destroy">
                        <input type="hidden" name="mirror_id" value=""#;
pub const ACTIVE_ACTIONS_6: &'static str = r#"">
                        <input type="hidden" name="onion_address" value=""#;
pub const ACTIVE_ACTIONS_7: &'static str = r#"">
                        <button type="submit" class="btn btn-danger" style="font-size: 0.8em;" onclick="return confirm('DESTROY this mirror? This will permanently remove it.');">🔥 Destroy</button>
                    </form>"#;
// The buttons of a standby mirror: panel path, id and address, twice.
pub const STANDBY_ACTIONS_0: &'static str = r#"<form method="POST" action=""#;
pub const STANDBY_ACTIONS_1: &'static str = r#"/mirror/action" style="display: inline; margin: 0;">
                        <input type="hidden" name="action" value="activate">
                        <input type="hidden" name="mirror_id" value=""#;
pub const STANDBY_ACTIONS_2: &'static str = r#"">
                        <input type="hidden" name="onion_address" value=""#;
pub const STANDBY_ACTIONS_3: &'static str = r#"">
                        <button type="submit" class="btn btn-success" style="font-size: 0.8em;">🚀 Activate</button>
                    </form>
                    <form method="POST" action=""#;
pub const STANDBY_ACTIONS_4: &'static str = r#"/mirror/action" style="display: inline; margin: 0;">
                        <input type="hidden" name="action" value="destroy">
                        <input type="hidden" name="mirror_id" value=""#;
pub const STANDBY_ACTIONS_5: &'static str = r#"">
                        <input type="hidden" name="onion_address" value=""#;
pub const STANDBY_ACTIONS_6: &'static str = r#"">
                        <button type="submit" class="btn btn-danger" style="font-size: 0.8em;" onclick="return confirm('DESTROY this standby mirror?');">🔥 Destroy</button>
                    </form>"#;
// The buttons of a paused mirror: panel path, id and address, twice.
pub const PAUSED_ACTIONS_0: &'static str = r#"<form method="POST" action=""#;
pub const PAUSED_ACTIONS_1: &'static str = r#"/mirror/action" style="display: inline; margin: 0;">
                        <input type="hidden" name="action" value="resume">
                        <input type="hidden" name="mirror_id" value=""#;
pub const PAUSED_ACTIONS_2: &'static str = r#"">
                        <input type="hidden" name="onion_address" value=""#;
pub const PAUSED_ACTIONS_3: &'static str = r#"">
                        <button type="submit" class="btn btn-success" style="font-size: 0.8em;">▶️ Resume</button>
                    </form>
                    <form method="POST" action=""#;
pub const PAUSED_ACTIONS_4: &'static str = r#"/mirror/action" style="display: inline; margin: 0;">
                        <input type="hidden" name="action" value="destroy">
                        <input type="hidden" name="mirror_id" value=""#;
pub const PAUSED_ACTIONS_5: &'static str = r#"">
                        <input type="hidden" name="onion_address" value=""#;
pub const PAUSED_ACTIONS_6: &'static str = r#"">
                        <button type="submit" class="btn btn-danger" style="font-size: 0.8em;" onclick="return confirm('DESTROY this mirror? This will permanently remove it.');">🔥 Destroy</button>
                    </form>"#;
// The row of one mirror: id, address, status class and text, age, requests, buttons.
pub const MIRROR_ROW_0: &'static str = r#"<tr>
                <td>"#;
pub const MIRROR_ROW_1: &'static str = r#"</td>
                <td><code>"#;
pub const MIRROR_ROW_2: &'static str = r#"</code></td>
                <td class=""#;
pub const MIRROR_ROW_3: &'static str = r#"">"#;
pub const MIRROR_ROW_4: &'static str = r#"</td>
                <td>"#;
pub const MIRROR_ROW_5: &'static str = r#"</td>
                <td>"#;
pub const MIRROR_ROW_6: &'static str = r#"</td>
                <td style="display: flex; gap: 5px; flex-wrap: wrap;">"#;
pub const MIRROR_ROW_7: &'static str = r#"</td>
            </tr>"#;
/// The row shown when the orchestrator lists no mirror.
pub const NO_MIRRORS_ROW: &'static str = r#"<tr><td colspan="6" style="text-align: center; color: var(--text-muted);">No mirrors found. Orchestrator may still be starting up...</td></tr>"#;
// The mirrors page: four counts, the panel path twice, the rows.
pub const MIRRORS_PAGE_0: &'static str = r#"
        <h2>Mirror Management</h2>

        <div class="stats-grid">
            <div class="stat-box">
                <div class="stat-value">"#;
pub const MIRRORS_PAGE_1: &'static str = r#"</div>
                <div class="stat-label">Active Mirrors</div>
            </div>
            <div class="stat-box" style="border-color: var(--amber);">
                <div class="stat-value" style="color: var(--amber);">"#;
pub const MIRRORS_PAGE_2: &'static str = r#"</div>
                <div class="stat-label">Standby Mirrors</div>
            </div>
            <div class="stat-box" style="border-color: var(--sage);">
                <div class="stat-value" style="color: var(--sage);">"#;
pub const MIRRORS_PAGE_3: &'static str = r#"</div>
                <div class="stat-label">PoW Enabled</div>
            </div>
            <div class="stat-box" style="border-color: var(--gold-muted);">
                <div class="stat-value" style="color: var(--gold-muted);">"#;
pub const MIRRORS_PAGE_4: &'static str = r#"</div>
                <div class="stat-label">Total Mirrors</div>
            </div>
        </div>

        <div class="card" style="background: var(--bg-elevated); border-color: var(--gold-muted);">
            <h3>How Mirrors Work</h3>
            <p style="color: var(--text-secondary); line-height: 1.6;">
                Mirrors are managed automatically by the <strong>Orchestrator</strong> service.
                The orchestrator maintains a pool of rotating .onion addresses that point to this Fortify instance.
            </p>
            <p style="color: var(--text-secondary); line-height: 1.6; margin-top: 10px;">
                <strong>Pausing</strong> a mirror shows users a redirect page directing them to active mirrors.
                <strong>Destroying</strong> a mirror permanently removes it from Tor.
            </p>
            <p style="margin-top: 15px;">
                <a href="http://127.0.0.1:8080/status" target="_blank" class="btn">View Orchestrator Status</a>
            </p>
        </div>

        <div class="card">
            <h3>+ Create New Mirror</h3>
            <p style="color: var(--text-muted); margin-bottom: 15px;">
                Request the orchestrator to spawn a new .onion mirror. This creates a new Tor hidden service.
            </p>
            <div style="display: flex; gap: 10px; flex-wrap: wrap;">
                <form method="POST" action=""#;
pub const MIRRORS_PAGE_5: &'static str = r#"/mirror/action">
                    <input type="hidden" name="action" value="create">
                    <button type="submit" class="btn btn-success">🧅 Create Active Mirror</button>
                </form>
                <form method="POST" action=""#;
pub const MIRRORS_PAGE_6: &'static str = r#"/mirror/action">
                    <input type="hidden" name="action" value="create_standby">
                    <button type="submit" class="btn" style="background: rgba(212,168,75,0.1); border-color: var(--amber); color: var(--amber);">🛡️ Create Standby Mirror</button>
                </form>
            </div>
            <p style="color: var(--text-muted); font-size: 0.85em; margin-top: 10px;">
                <strong>Active</strong> mirrors serve traffic immediately. <strong>Standby</strong> mirrors are paused but ready for instant activation.
            </p>
        </div>

        <div class="section">
            <h3>All Mirrors</h3>
            <p style="color: var(--text-muted); margin-bottom: 15px;">These .onion addresses route through Tor to this Fortify instance:</p>
            <table>
                <thead>
                    <tr>
                        <th>ID</th>
                        <th>Onion Address</th>
                        <th>Status</th>
                        <th>Age</th>
                        <th>Requests</th>
                        <th>Actions</th>
                    </tr>
                </thead>
                <tbody>
                    "#;
pub const MIRRORS_PAGE_7: &'static str = r#"
                </tbody>
            </table>
        </div>
    "#;
/// Shown for a session not yet routed to a node.
pub const NODE_UNROUTED: &'static str = r#"<span style='color: var(--text-muted);'>Not yet routed</span>"#;
/// Shown for a session that came through no mirror.
pub const MIRROR_DIRECT: &'static str = r#"<span style='color: var(--text-muted);'>Direct / Local</span>"#;
/// Shown for a session with no history.
pub const NO_HISTORY: &'static str = r#"<p>No history recorded.</p>"#;
/// Shown for a killed session.
pub const KILLED_MARK: &'static str = r#"<span style='color: var(--crimson);'>YES - REPEAT OFFENDER</span>"#;
/// Before the first characters of the mirror a session came through.
pub const MIRROR_SHOWN_0: &'static str = r#"<span style='color: var(--gold-primary);'>🧅 Mirror</span> <code style='font-size: 0.9em;'>"#;
/// After them.
pub const MIRROR_SHOWN_1: &'static str = r#"...</code>"#;
/// Before the reason of an event.
pub const REASON_0: &'static str = r#"<div style='color: var(--text-muted); font-size: 0.85em; margin-left: 32px;'>↳ "#;
/// After it.
pub const REASON_1: &'static str = r#"</div>"#;
/// Status text of an active mirror.
pub const ACTIVE_TEXT: &'static str = r#"🟢 Active"#;
/// Status text of a standby mirror.
pub const STANDBY_TEXT: &'static str = r#"⏸️ Standby"#;
/// Status text of a paused mirror.
pub const PAUSED_TEXT: &'static str = r#"⏸️ Paused"#;

fn push_escaped(s: &mut String, t: &str)
    ensures
        final(s)@ == old(s)@ + escaped(t@),
{
    let e = html_escape(t);
    s.append(e.as_str());
}

fn push_number(s: &mut String, n: u64)
    ensures
        final(s)@ == old(s)@ + decimal(n as nat),
{
    let d = u64_to_decimal(n);
    s.append(d.as_str());
}

// ---------------------------------------------------------------- settings

/// The custom CSS of a branding, or nothing.
pub open spec fn css_text(css: Option<String>) -> Seq<char> {
    match css {
        Some(c) => c@,
        None => ""@,
    }
}

/// The form of one kind of CAPTCHA.
pub open spec fn type_form(t: CaptchaTypeSettings) -> Seq<char> {
    TYPE_FORM_0@ + ADMIN_PATH@ + TYPE_FORM_1@ + t.type_key@ + TYPE_FORM_2@
        + (if t.enabled { "checked"@ } else { ""@ }) + TYPE_FORM_3@ + t.type_key@ + TYPE_FORM_4@
        + (if t.enabled { "var(--sage)"@ } else { "var(--crimson)"@ }) + TYPE_FORM_5@
        + (if t.enabled { "ENABLED"@ } else { "DISABLED"@ }) + TYPE_FORM_6@
        + decimal(t.option_count as nat) + TYPE_FORM_7@ + decimal(t.difficulty as nat) + TYPE_FORM_8@
        + decimal(t.min_pool_size as nat) + TYPE_FORM_9@
}

/// The forms of the kinds, in order.
pub open spec fn type_forms(ts: Seq<CaptchaTypeSettings>) -> Seq<char>
    decreases ts.len(),
{
    if ts.len() == 0 { Seq::empty() } else { type_forms(ts.drop_last()) + type_form(ts.last()) }
}

/// The body of the settings page: the help card, the card about
/// behavioural analysis, the branding form, the pool form, one form per
/// kind of CAPTCHA and the configuration card.
pub open spec fn settings_html(b: BrandingConfig, c: CaptchaPoolConfig, ts: Seq<CaptchaTypeSettings>) -> Seq<char> {
    SETTINGS_HELP_0@ + ADMIN_PATH@ + SETTINGS_HELP_1@
        + SETTINGS_BRANDING_0@ + ADMIN_PATH@ + SETTINGS_BRANDING_1@ + escaped(b.service_name@)
        + SETTINGS_BRANDING_2@ + escaped(b.description@) + SETTINGS_BRANDING_3@ + escaped(b.welcome_message@)
        + SETTINGS_BRANDING_4@ + b.primary_color@ + SETTINGS_BRANDING_5@ + b.primary_color@
        + SETTINGS_BRANDING_6@ + b.secondary_color@ + SETTINGS_BRANDING_7@ + b.secondary_color@
        + SETTINGS_BRANDING_8@ + b.tertiary_color@ + SETTINGS_BRANDING_9@ + b.tertiary_color@
        + SETTINGS_BRANDING_10@ + css_text(b.custom_css) + SETTINGS_BRANDING_11@
        + SETTINGS_POOL_0@ + ADMIN_PATH@ + SETTINGS_POOL_1@ + decimal(c.pool_size as nat)
        + SETTINGS_POOL_2@ + decimal(c.min_pool_size as nat) + SETTINGS_POOL_3@ + decimal(c.max_pool_size as nat)
        + SETTINGS_POOL_4@ + decimal(c.difficulty as nat) + SETTINGS_POOL_5@ + decimal(c.timeout_seconds as nat)
        + SETTINGS_POOL_6@ + decimal(c.max_attempts as nat) + SETTINGS_POOL_7@ + decimal(c.rotation_percent as nat)
        + SETTINGS_POOL_8@ + decimal(c.rotation_interval_days as nat) + SETTINGS_POOL_9@ + type_forms(ts)
        + SETTINGS_POOL_10@ + ADMIN_PATH@ + SETTINGS_POOL_11@ + ADMIN_PATH@ + SETTINGS_POOL_12@
}

fn type_form_html(t: &CaptchaTypeSettings) -> (r: String)
    ensures
        r@ == type_form(*t),
{
    let mut s = owned(TYPE_FORM_0);
    s.append(ADMIN_PATH);
    s.append(TYPE_FORM_1);
    s.append(t.type_key.as_str());
    s.append(TYPE_FORM_2);
    if t.enabled { s.append("checked"); } else { s.append(""); }
    s.append(TYPE_FORM_3);
    s.append(t.type_key.as_str());
    s.append(TYPE_FORM_4);
    if t.enabled { s.append("var(--sage)"); } else { s.append("var(--crimson)"); }
    s.append(TYPE_FORM_5);
    if t.enabled { s.append("ENABLED"); } else { s.append("DISABLED"); }
    s.append(TYPE_FORM_6);
    push_number(&mut s, t.option_count as u64);
    s.append(TYPE_FORM_7);
    push_number(&mut s, t.difficulty as u64);
    s.append(TYPE_FORM_8);
    push_number(&mut s, t.min_pool_size as u64);
    s.append(TYPE_FORM_9);
    s
}

fn type_forms_html(types: &Vec<CaptchaTypeSettings>) -> (r: String)
    ensures
        r@ == type_forms(types@),
{
    let mut s = String::new();
    let mut i: usize = 0;
    while i < types.len()
        invariant
            i <= types@.len(),
            s@ == type_forms(types@.take(i as int)),
        decreases types@.len() - i,
    {
        let f = type_form_html(&types[i]);
        proof {
            assert(types@.take(i + 1).drop_last() =~= types@.take(i as int));
        }
        s.append(f.as_str());
        i = i + 1;
    }
    proof {
        assert(types@.take(types@.len() as int) =~= types@);
    }
    s
}

/// The body of the settings page for the given branding, pool settings
/// and kinds of CAPTCHA. It holds no card for settings that this library
/// does not keep: behaviour detection and its totals, and the choice of
/// CAPTCHA type for new and for demoted visitors.
pub fn settings_page_body(b: &BrandingConfig, c: &CaptchaPoolConfig, types: &Vec<CaptchaTypeSettings>) -> (r: String)
    ensures
        r@ == settings_html(*b, *c, types@),
{
    let mut s = owned(SETTINGS_HELP_0);
    s.append(ADMIN_PATH);
    s.append(SETTINGS_HELP_1);
    s.append(SETTINGS_BRANDING_0);
    s.append(ADMIN_PATH);
    s.append(SETTINGS_BRANDING_1);
    push_escaped(&mut s, b.service_name.as_str());
    s.append(SETTINGS_BRANDING_2);
    push_escaped(&mut s, b.description.as_str());
    s.append(SETTINGS_BRANDING_3);
    push_escaped(&mut s, b.welcome_message.as_str());
    s.append(SETTINGS_BRANDING_4);
    s.append(b.primary_color.as_str());
    s.append(SETTINGS_BRANDING_5);
    s.append(b.primary_color.as_str());
    s.append(SETTINGS_BRANDING_6);
    s.append(b.secondary_color.as_str());
    s.append(SETTINGS_BRANDING_7);
    s.append(b.secondary_color.as_str());
    s.append(SETTINGS_BRANDING_8);
    s.append(b.tertiary_color.as_str());
    s.append(SETTINGS_BRANDING_9);
    s.append(b.tertiary_color.as_str());
    s.append(SETTINGS_BRANDING_10);
    match &b.custom_css {
        Some(css) => s.append(css.as_str()),
        None => s.append(""),
    }
    s.append(SETTINGS_BRANDING_11);
    s.append(SETTINGS_POOL_0);
    s.append(ADMIN_PATH);
    s.append(SETTINGS_POOL_1);
    push_number(&mut s, c.pool_size as u64);
    s.append(SETTINGS_POOL_2);
    push_number(&mut s, c.min_pool_size as u64);
    s.append(SETTINGS_POOL_3);
    push_number(&mut s, c.max_pool_size as u64);
    s.append(SETTINGS_POOL_4);
    push_number(&mut s, c.difficulty as u64);
    s.append(SETTINGS_POOL_5);
    push_number(&mut s, c.timeout_seconds);
    s.append(SETTINGS_POOL_6);
    push_number(&mut s, c.max_attempts as u64);
    s.append(SETTINGS_POOL_7);
    push_number(&mut s, c.rotation_percent as u64);
    s.append(SETTINGS_POOL_8);
    push_number(&mut s, c.rotation_interval_days as u64);
    s.append(SETTINGS_POOL_9);
    let forms = type_forms_html(types);
    s.append(forms.as_str());
    s.append(SETTINGS_POOL_10);
    s.append(ADMIN_PATH);
    s.append(SETTINGS_POOL_11);
    s.append(ADMIN_PATH);
    s.append(SETTINGS_POOL_12);
    s
}

// ----------------------------------------------------------------- session

/// The first `n` characters of a text, or all of it when it is shorter.
pub open spec fn first_chars(t: Seq<char>, n: nat) -> Seq<char> {
    if t.len() <= n { t } else { t.subrange(0, n as int) }
}

/// Where the session is routed: "Not yet routed", or the node's name
/// styled by whether it is a healthy node.
pub open spec fn node_display(node: Seq<char>) -> Seq<char> {
    if node.len() == 0 {
        NODE_UNROUTED@
    } else {
        "<span class='"@ + (if has_prefix(node, "healthy"@) { "mode-healthy"@ } else { "mode-threat"@ }) + "'>"@
            + node + "</span>"@
    }
}

/// The mirror the session came through: "Direct / Local", or the first
/// five characters of its address.
pub open spec fn mirror_display(mirror: Seq<char>) -> Seq<char> {
    if mirror.len() == 0 {
        MIRROR_DIRECT@
    } else {
        MIRROR_SHOWN_0@ + first_chars(mirror, 5) + MIRROR_SHOWN_1@
    }
}

/// The style class of a response status.
pub open spec fn status_class(code: u16) -> Seq<char> {
    if code < 400 { "status-online"@ } else { "status-offline"@ }
}

/// The note under an event that gives its reason, or nothing.
pub open spec fn reason_note(r: Option<Seq<char>>) -> Seq<char> {
    match r {
        Some(t) => REASON_0@ + t + REASON_1@,
        None => ""@,
    }
}

/// One history line, its age taken at `now`.
pub open spec fn history_line(h: HistoryView, now: u64) -> Seq<char> {
    if h.event_type == HistoryEventType::PageRequest {
        HISTORY_REQUEST_0@ + ago_text(h.timestamp, now) + HISTORY_REQUEST_1@ + status_class(h.status_code)
            + HISTORY_REQUEST_2@ + decimal(h.status_code as nat) + HISTORY_REQUEST_3@ + h.method
            + HISTORY_REQUEST_4@ + h.path + HISTORY_REQUEST_5@
    } else {
        HISTORY_EVENT_0@ + event_class(h.event_type) + HISTORY_EVENT_1@ + ago_text(h.timestamp, now)
            + HISTORY_EVENT_2@ + event_icon(h.event_type) + HISTORY_EVENT_3@ + h.method + HISTORY_EVENT_4@
            + h.path + HISTORY_EVENT_5@ + reason_note(h.reason) + HISTORY_EVENT_6@
    }
}

/// The lines of a history, the newest first.
pub open spec fn lines_newest_first(hs: Seq<HistoryView>, now: u64) -> Seq<char>
    decreases hs.len(),
{
    if hs.len() == 0 {
        Seq::empty()
    } else {
        lines_newest_first(hs.subrange(1, hs.len() as int), now) + history_line(hs[0], now)
    }
}

/// The history shown: its last fifty lines, newest first, or a note that
/// there is none.
pub open spec fn history_html(hs: Seq<HistoryView>, now: u64) -> Seq<char> {
    if hs.len() == 0 {
        NO_HISTORY@
    } else {
        let from = if hs.len() > 50 { hs.len() - 50 } else { 0 };
        lines_newest_first(hs.subrange(from, hs.len() as int), now)
    }
}

/// The body of a session's page at `now`; `traffic` is its byte count as
/// already written out for reading.
pub open spec fn session_html(s: SessionInfo, traffic: Seq<char>, now: u64) -> Seq<char> {
    SESSION_PAGE_0@ + first_chars(s.session_id@, 12) + SESSION_PAGE_1@ + s.session_id@
        + SESSION_PAGE_2@ + "tier-"@ + lowercase(s.trust_tier@) + SESSION_PAGE_3@ + s.trust_tier@
        + SESSION_PAGE_4@ + node_display(s.current_node@) + SESSION_PAGE_5@ + mirror_display(s.current_mirror@)
        + SESSION_PAGE_6@ + decimal(s.page_loads as nat) + SESSION_PAGE_7@ + decimal(s.request_count as nat)
        + SESSION_PAGE_8@ + traffic + SESSION_PAGE_9@ + decimal(s.violation_count as nat)
        + SESSION_PAGE_10@ + decimal(s.demotion_count as nat) + SESSION_PAGE_11@ + ago_text(s.created_at, now)
        + SESSION_PAGE_12@ + ago_text(s.last_activity, now)
        + SESSION_PAGE_13@ + (if s.is_banned { "Yes"@ } else { "No"@ })
        + SESSION_PAGE_14@ + (if s.is_killed { KILLED_MARK@ } else { "No"@ })
        + SESSION_PAGE_15@ + ADMIN_PATH@ + SESSION_PAGE_16@ + s.session_id@
        + SESSION_PAGE_17@ + NO_BEHAVIOR_CARD@ + SESSION_PAGE_18@ + history_html(hist(s), now)
        + SESSION_PAGE_19@ + ADMIN_PATH@ + SESSION_PAGE_20@
}

fn first_chars_of(t: &str, n: usize) -> (r: String)
    ensures
        r@ == first_chars(t@, n as nat),
{
    let v = chars_of(t);
    if v.len() <= n {
        proof {
            assert(v@.subrange(0, v@.len() as int) =~= v@);
        }
        string_of(v.as_slice(), 0, v.len())
    } else {
        string_of(v.as_slice(), 0, n)
    }
}

fn node_display_html(node: &str) -> (r: String)
    ensures
        r@ == node_display(node@),
{
    if node.unicode_len() == 0 {
        owned(NODE_UNROUTED)
    } else {
        let mut s = owned("<span class='");
        if starts_with(node, "healthy") { s.append("mode-healthy"); } else { s.append("mode-threat"); }
        s.append("'>");
        s.append(node);
        s.append("</span>");
        s
    }
}

fn mirror_display_html(mirror: &str) -> (r: String)
    ensures
        r@ == mirror_display(mirror@),
{
    if mirror.unicode_len() == 0 {
        owned(MIRROR_DIRECT)
    } else {
        let mut s = owned(MIRROR_SHOWN_0);
        let p = first_chars_of(mirror, 5);
        s.append(p.as_str());
        s.append(MIRROR_SHOWN_1);
        s
    }
}

fn history_line_html(h: &HistoryEntry, now: u64) -> (r: String)
    ensures
        r@ == history_line(h@, now),
{
    let ago = format_timestamp_at(h.timestamp, now);
    match h.event_type {
        HistoryEventType::PageRequest => {
            let mut s = owned(HISTORY_REQUEST_0);
            s.append(ago.as_str());
            s.append(HISTORY_REQUEST_1);
            if h.status_code < 400 { s.append("status-online"); } else { s.append("status-offline"); }
            s.append(HISTORY_REQUEST_2);
            push_number(&mut s, h.status_code as u64);
            s.append(HISTORY_REQUEST_3);
            s.append(h.method.as_str());
            s.append(HISTORY_REQUEST_4);
            s.append(h.path.as_str());
            s.append(HISTORY_REQUEST_5);
            s
        },
        _ => {
            let mut s = owned(HISTORY_EVENT_0);
            s.append(h.event_type.css_class());
            s.append(HISTORY_EVENT_1);
            s.append(ago.as_str());
            s.append(HISTORY_EVENT_2);
            s.append(h.event_type.icon());
            s.append(HISTORY_EVENT_3);
            s.append(h.method.as_str());
            s.append(HISTORY_EVENT_4);
            s.append(h.path.as_str());
            s.append(HISTORY_EVENT_5);
            match &h.reason {
                Some(t) => {
                    let mut note = owned(REASON_0);
                    note.append(t.as_str());
                    note.append(REASON_1);
                    s.append(note.as_str());
                },
                None => s.append(""),
            }
            s.append(HISTORY_EVENT_6);
            s
        },
    }
}

fn history_lines_html(hs: &Vec<HistoryEntry>, now: u64) -> (r: String)
    ensures
        r@ == history_html(history_views(hs@), now),
{
    let ghost v = history_views(hs@);
    let n = hs.len();
    if n == 0 {
        return owned(NO_HISTORY);
    }
    let from: usize = if n > 50 { n - 50 } else { 0 };
    let mut out = String::new();
    let mut j: usize = n;
    while j > from
        invariant
            n == hs@.len(),
            v == history_views(hs@),
            v.len() == n,
            from <= j <= n,
            out@ == lines_newest_first(v.subrange(j as int, n as int), now),
        decreases j,
    {
        let line = history_line_html(&hs[j - 1], now);
        proof {
            let sub = v.subrange(j - 1, n as int);
            assert(sub.subrange(1, sub.len() as int) =~= v.subrange(j as int, n as int));
            assert(sub[0] == hs@[j - 1]@);
        }
        out.append(line.as_str());
        j = j - 1;
    }
    out
}

/// The body of the page of session `s` at `now`; `traffic` is its byte
/// count as already written out for reading. Sessions here carry no
/// behaviour data, so the behaviour card is the one that says so.
pub fn session_page_body(s: &SessionInfo, traffic: &str, now: u64) -> (r: String)
    ensures
        r@ == session_html(*s, traffic@, now),
{
    let mut out = owned(SESSION_PAGE_0);
    let id = first_chars_of(s.session_id.as_str(), 12);
    out.append(id.as_str());
    out.append(SESSION_PAGE_1);
    out.append(s.session_id.as_str());
    out.append(SESSION_PAGE_2);
    out.append("tier-");
    let lower = to_lowercase(s.trust_tier.as_str());
    out.append(lower.as_str());
    out.append(SESSION_PAGE_3);
    out.append(s.trust_tier.as_str());
    out.append(SESSION_PAGE_4);
    let node = node_display_html(s.current_node.as_str());
    out.append(node.as_str());
    out.append(SESSION_PAGE_5);
    let mirror = mirror_display_html(s.current_mirror.as_str());
    out.append(mirror.as_str());
    out.append(SESSION_PAGE_6);
    push_number(&mut out, s.page_loads);
    out.append(SESSION_PAGE_7);
    push_number(&mut out, s.request_count);
    out.append(SESSION_PAGE_8);
    out.append(traffic);
    out.append(SESSION_PAGE_9);
    push_number(&mut out, s.violation_count as u64);
    out.append(SESSION_PAGE_10);
    push_number(&mut out, s.demotion_count as u64);
    out.append(SESSION_PAGE_11);
    let created = format_timestamp_at(s.created_at, now);
    out.append(created.as_str());
    out.append(SESSION_PAGE_12);
    let last = format_timestamp_at(s.last_activity, now);
    out.append(last.as_str());
    out.append(SESSION_PAGE_13);
    if s.is_banned { out.append("Yes"); } else { out.append("No"); }
    out.append(SESSION_PAGE_14);
    if s.is_killed { out.append(KILLED_MARK); } else { out.append("No"); }
    out.append(SESSION_PAGE_15);
    out.append(ADMIN_PATH);
    out.append(SESSION_PAGE_16);
    out.append(s.session_id.as_str());
    out.append(SESSION_PAGE_17);
    out.append(NO_BEHAVIOR_CARD);
    out.append(SESSION_PAGE_18);
    let history = history_lines_html(&s.browsing_history, now);
    out.append(history.as_str());
    out.append(SESSION_PAGE_19);
    out.append(ADMIN_PATH);
    out.append(SESSION_PAGE_20);
    out
}

// ----------------------------------------------------------------- mirrors

/// A mirror as the orchestrator lists it: id, onion address, status,
/// proof of work on, standby.
pub type ListedMirror = (String, String, String, bool, bool);

/// Mirrors listed as active.
pub open spec fn active_count(ms: Seq<ListedMirror>) -> nat
    decreases ms.len(),
{
    if ms.len() == 0 { 0 } else { active_count(ms.drop_last()) + (if ms.last().2@ == "active"@ { 1nat } else { 0nat }) }
}

/// Mirrors listed as standby.
pub open spec fn standby_count(ms: Seq<ListedMirror>) -> nat
    decreases ms.len(),
{
    if ms.len() == 0 { 0 } else { standby_count(ms.drop_last()) + (if ms.last().4 { 1nat } else { 0nat }) }
}

/// Mirrors listed with proof of work on.
pub open spec fn pow_count(ms: Seq<ListedMirror>) -> nat
    decreases ms.len(),
{
    if ms.len() == 0 { 0 } else { pow_count(ms.drop_last()) + (if ms.last().3 { 1nat } else { 0nat }) }
}

/// The position of the first mirror the panel recorded at `onion`, from `k` on.
pub open spec fn recorded_at(recorded: Seq<MirrorInfo>, onion: Seq<char>, k: int) -> Option<int>
    decreases recorded.len() - k,
{
    if k < 0 || k >= recorded.len() {
        None
    } else if recorded[k].onion_address@ == onion {
        Some(k)
    } else {
        recorded_at(recorded, onion, k + 1)
    }
}

/// How long ago the panel first recorded the mirror at `onion`, or "-".
pub open spec fn age_text(recorded: Seq<MirrorInfo>, onion: Seq<char>, now: u64) -> Seq<char> {
    match recorded_at(recorded, onion, 0) {
        Some(k) => duration_text(if now >= recorded[k].created_at { (now - recorded[k].created_at) as u64 } else { 0 }),
        None => "-"@,
    }
}

/// The request count shown for the mirror at `onion`: the written-out
/// count of its record, or "0".
pub open spec fn requests_text(recorded: Seq<MirrorInfo>, counts: Seq<String>, onion: Seq<char>) -> Seq<char> {
    match recorded_at(recorded, onion, 0) {
        Some(k) => counts[k]@,
        None => "0"@,
    }
}

/// The badge of a mirror with proof of work on, or nothing.
pub open spec fn pow_badge(on: bool) -> Seq<char> {
    if on { POW_BADGE@ } else { ""@ }
}

/// The badge of a standby mirror, or nothing.
pub open spec fn standby_badge(on: bool) -> Seq<char> {
    if on { STANDBY_BADGE@ } else { ""@ }
}

/// The status class, the status text and the buttons of a listed mirror.
pub open spec fn mirror_state(m: ListedMirror) -> (Seq<char>, Seq<char>, Seq<char>) {
    let (id, onion) = (m.0@, m.1@);
    if m.2@ == "active"@ {
        (
            "status-online"@,
            ACTIVE_TEXT@ + pow_badge(m.3) + standby_badge(m.4),
            ACTIVE_ACTIONS_0@ + onion + ACTIVE_ACTIONS_1@ + ADMIN_PATH@ + ACTIVE_ACTIONS_2@ + id + ACTIVE_ACTIONS_3@
                + onion + ACTIVE_ACTIONS_4@ + ADMIN_PATH@ + ACTIVE_ACTIONS_5@ + id + ACTIVE_ACTIONS_6@ + onion
                + ACTIVE_ACTIONS_7@,
        )
    } else if m.2@ == "paused"@ && m.4 {
        (
            "status-threat"@,
            STANDBY_TEXT@ + pow_badge(m.3) + standby_badge(m.4),
            STANDBY_ACTIONS_0@ + ADMIN_PATH@ + STANDBY_ACTIONS_1@ + id + STANDBY_ACTIONS_2@ + onion
                + STANDBY_ACTIONS_3@ + ADMIN_PATH@ + STANDBY_ACTIONS_4@ + id + STANDBY_ACTIONS_5@ + onion
                + STANDBY_ACTIONS_6@,
        )
    } else if m.2@ == "paused"@ {
        (
            "status-threat"@,
            PAUSED_TEXT@ + pow_badge(m.3),
            PAUSED_ACTIONS_0@ + ADMIN_PATH@ + PAUSED_ACTIONS_1@ + id + PAUSED_ACTIONS_2@ + onion
                + PAUSED_ACTIONS_3@ + ADMIN_PATH@ + PAUSED_ACTIONS_4@ + id + PAUSED_ACTIONS_5@ + onion
                + PAUSED_ACTIONS_6@,
        )
    } else {
        ("status-unknown"@, m.2@, ""@)
    }
}

/// The row of one listed mirror.
pub open spec fn mirror_row(m: ListedMirror, recorded: Seq<MirrorInfo>, counts: Seq<String>, now: u64) -> Seq<char> {
    let st = mirror_state(m);
    MIRROR_ROW_0@ + m.0@ + MIRROR_ROW_1@ + m.1@ + MIRROR_ROW_2@ + st.0 + MIRROR_ROW_3@ + st.1
        + MIRROR_ROW_4@ + age_text(recorded, m.1@, now) + MIRROR_ROW_5@ + requests_text(recorded, counts, m.1@)
        + MIRROR_ROW_6@ + st.2 + MIRROR_ROW_7@
}

/// The rows of the listed mirrors, in order.
pub open spec fn mirror_rows(ms: Seq<ListedMirror>, recorded: Seq<MirrorInfo>, counts: Seq<String>, now: u64) -> Seq<char>
    decreases ms.len(),
{
    if ms.len() == 0 {
        Seq::empty()
    } else {
        mirror_rows(ms.drop_last(), recorded, counts, now) + mirror_row(ms.last(), recorded, counts, now)
    }
}

/// The body of the mirrors page at `now`.
pub open spec fn mirrors_html(listed: Seq<ListedMirror>, recorded: Seq<MirrorInfo>, counts: Seq<String>, now: u64) -> Seq<char> {
    MIRRORS_PAGE_0@ + decimal(active_count(listed)) + MIRRORS_PAGE_1@ + decimal(standby_count(listed))
        + MIRRORS_PAGE_2@ + decimal(pow_count(listed)) + MIRRORS_PAGE_3@ + decimal(listed.len())
        + MIRRORS_PAGE_4@ + ADMIN_PATH@ + MIRRORS_PAGE_5@ + ADMIN_PATH@ + MIRRORS_PAGE_6@
        + (if listed.len() == 0 { NO_MIRRORS_ROW@ } else { mirror_rows(listed, recorded, counts, now) })
        + MIRRORS_PAGE_7@
}

fn find_recorded(recorded: &Vec<MirrorInfo>, onion: &str) -> (r: Option<usize>)
    ensures
        r is None ==> recorded_at(recorded@, onion@, 0) is None,
        r matches Some(k) ==> k < recorded@.len() && recorded_at(recorded@, onion@, 0) == Some(k as int),
{
    let mut i: usize = 0;
    while i < recorded.len()
        invariant
            i <= recorded@.len(),
            recorded_at(recorded@, onion@, 0) == recorded_at(recorded@, onion@, i as int),
        decreases recorded@.len() - i,
    {
        if str_eq(recorded[i].onion_address.as_str(), onion) {
            return Some(i);
        }
        i = i + 1;
    }
    None
}

fn mirror_state_html(m: &ListedMirror) -> (r: (String, String, String))
    ensures
        (r.0@, r.1@, r.2@) == mirror_state(*m),
{
    let id = m.0.as_str();
    let onion = m.1.as_str();
    if str_eq(m.2.as_str(), "active") {
        let mut text = owned(ACTIVE_TEXT);
        if m.3 { text.append(POW_BADGE); } else { text.append(""); }
        if m.4 { text.append(STANDBY_BADGE); } else { text.append(""); }
        let mut actions = owned(ACTIVE_ACTIONS_0);
        actions.append(onion);
        actions.append(ACTIVE_ACTIONS_1);
        actions.append(ADMIN_PATH);
        actions.append(ACTIVE_ACTIONS_2);
        actions.append(id);
        actions.append(ACTIVE_ACTIONS_3);
        actions.append(onion);
        actions.append(ACTIVE_ACTIONS_4);
        actions.append(ADMIN_PATH);
        actions.append(ACTIVE_ACTIONS_5);
        actions.append(id);
        actions.append(ACTIVE_ACTIONS_6);
        actions.append(onion);
        actions.append(ACTIVE_ACTIONS_7);
        (owned("status-online"), text, actions)
    } else if str_eq(m.2.as_str(), "paused") && m.4 {
        let mut text = owned(STANDBY_TEXT);
        if m.3 { text.append(POW_BADGE); } else { text.append(""); }
        text.append(STANDBY_BADGE);
        let mut actions = owned(STANDBY_ACTIONS_0);
        actions.append(ADMIN_PATH);
        actions.append(STANDBY_ACTIONS_1);
        actions.append(id);
        actions.append(STANDBY_ACTIONS_2);
        actions.append(onion);
        actions.append(STANDBY_ACTIONS_3);
        actions.append(ADMIN_PATH);
        actions.append(STANDBY_ACTIONS_4);
        actions.append(id);
        actions.append(STANDBY_ACTIONS_5);
        actions.append(onion);
        actions.append(STANDBY_ACTIONS_6);
        (owned("status-threat"), text, actions)
    } else if str_eq(m.2.as_str(), "paused") {
        let mut text = owned(PAUSED_TEXT);
        if m.3 { text.append(POW_BADGE); } else { text.append(""); }
        let mut actions = owned(PAUSED_ACTIONS_0);
        actions.append(ADMIN_PATH);
        actions.append(PAUSED_ACTIONS_1);
        actions.append(id);
        actions.append(PAUSED_ACTIONS_2);
        actions.append(onion);
        actions.append(PAUSED_ACTIONS_3);
        actions.append(ADMIN_PATH);
        actions.append(PAUSED_ACTIONS_4);
        actions.append(id);
        actions.append(PAUSED_ACTIONS_5);
        actions.append(onion);
        actions.append(PAUSED_ACTIONS_6);
        (owned("status-threat"), text, actions)
    } else {
        (owned("status-unknown"), owned(m.2.as_str()), owned(""))
    }
}

fn mirror_row_html(m: &ListedMirror, recorded: &Vec<MirrorInfo>, counts: &Vec<String>, now: u64) -> (r: String)
    requires
        recorded@.len() == counts@.len(),
    ensures
        r@ == mirror_row(*m, recorded@, counts@, now),
{
    let (class, text, actions) = mirror_state_html(m);
    let onion = m.1.as_str();
    let found = find_recorded(recorded, onion);
    let mut age = owned("-");
    let mut requests = owned("0");
    match found {
        Some(k) => {
            age = format_duration(now.saturating_sub(recorded[k].created_at));
            requests = owned(counts[k].as_str());
            assert(recorded_at(recorded@, m.1@, 0) == Some(k as int));
        },
        None => {
            assert(recorded_at(recorded@, m.1@, 0) is None);
        },
    }
    let mut s = owned(MIRROR_ROW_0);
    s.append(m.0.as_str());
    s.append(MIRROR_ROW_1);
    s.append(onion);
    s.append(MIRROR_ROW_2);
    s.append(class.as_str());
    s.append(MIRROR_ROW_3);
    s.append(text.as_str());
    s.append(MIRROR_ROW_4);
    s.append(age.as_str());
    s.append(MIRROR_ROW_5);
    s.append(requests.as_str());
    s.append(MIRROR_ROW_6);
    s.append(actions.as_str());
    s.append(MIRROR_ROW_7);
    s
}

/// The body of the mirrors page at `now`: the counts of the mirrors the
/// orchestrator lists, the create buttons and one row per listed mirror.
/// A mirror the panel has recorded at the same address shows the age of
/// that record and its request count as already written out for reading
/// (`counts`, in the order of `recorded`).
pub fn mirrors_page_body(
    listed: &Vec<ListedMirror>,
    recorded: &Vec<MirrorInfo>,
    counts: &Vec<String>,
    now: u64,
) -> (r: String)
    requires
        recorded@.len() == counts@.len(),
    ensures
        r@ == mirrors_html(listed@, recorded@, counts@, now),
{
    let mut active: u64 = 0;
    let mut standby: u64 = 0;
    let mut pow: u64 = 0;
    let mut rows = String::new();
    let mut i: usize = 0;
    while i < listed.len()
        invariant
            i <= listed@.len(),
            recorded@.len() == counts@.len(),
            active == active_count(listed@.take(i as int)),
            standby == standby_count(listed@.take(i as int)),
            pow == pow_count(listed@.take(i as int)),
            active <= i && standby <= i && pow <= i,
            rows@ == mirror_rows(listed@.take(i as int), recorded@, counts@, now),
        decreases listed@.len() - i,
    {
        let m = &listed[i];
        proof {
            assert(listed@.take(i + 1).drop_last() =~= listed@.take(i as int));
            assert(listed@.take(i + 1).last() == *m);
        }
        if str_eq(m.2.as_str(), "active") { active = active + 1; }
        if m.4 { standby = standby + 1; }
        if m.3 { pow = pow + 1; }
        let row = mirror_row_html(m, recorded, counts, now);
        rows.append(row.as_str());
        i = i + 1;
    }
    proof {
        assert(listed@.take(listed@.len() as int) =~= listed@);
    }
    let mut s = owned(MIRRORS_PAGE_0);
    push_number(&mut s, active);
    s.append(MIRRORS_PAGE_1);
    push_number(&mut s, standby);
    s.append(MIRRORS_PAGE_2);
    push_number(&mut s, pow);
    s.append(MIRRORS_PAGE_3);
    push_number(&mut s, listed.len() as u64);
    s.append(MIRRORS_PAGE_4);
    s.append(ADMIN_PATH);
    s.append(MIRRORS_PAGE_5);
    s.append(ADMIN_PATH);
    s.append(MIRRORS_PAGE_6);
    if listed.len() == 0 {
        s.append(NO_MIRRORS_ROW);
    } else {
        s.append(rows.as_str());
    }
    s.append(MIRRORS_PAGE_7);
    s
}

} // verus!
