//! The fixed text of the pages that the board serves.

use vstd::prelude::*;

verus! {

/// The action area of an open contract, seen by its host.
pub const AWAITING_CHALLENGER: &'static str = r##"<div style="margin-top: 15px; padding-top: 15px; border-top: 1px dashed #39d353;">
                <em>[ Awaiting Challenger Signatures... ]</em>
            </div>"##;

/// The form by which another user accepts an open contract; the contract id goes between the pieces. (piece 0)
pub const ACCEPT_FORM_0: &'static str = r##"<form hx-post="/contract/"##;

/// The form by which another user accepts an open contract; the contract id goes between the pieces. (piece 1)
pub const ACCEPT_FORM_1: &'static str = r##"/accept" hx-target="#contract-"##;

/// The form by which another user accepts an open contract; the contract id goes between the pieces. (piece 2)
pub const ACCEPT_FORM_2: &'static str = r##"" hx-swap="outerHTML" style="margin-top: 15px; padding-top: 15px; border-top: 1px dashed #39d353;">
                    <strong style="color: #ff7b72;">:: ACCEPT CONTRACT ::</strong>
                    
                    <div style="margin-top: 10px;">
                        <label>Challenger Force Roster:</label>
                        <div style="display:flex; gap:10px; margin-top:5px;">
                            <input type="text" id="challenger-unit-search-"##;

/// The form by which another user accepts an open contract; the contract id goes between the pieces. (piece 3)
pub const ACCEPT_FORM_3: &'static str = r##"" list="unit-datalist" placeholder="Search Unit..." style="margin-bottom:0;">
                            <button type="button" onclick="addUnit('challenger', '"##;

/// The form by which another user accepts an open contract; the contract id goes between the pieces. (piece 4)
pub const ACCEPT_FORM_4: &'static str = r##"')" style="margin-bottom:0; width:auto;">ADD</button>
                        </div>
                        <ul id="challenger-roster-list-"##;

/// The form by which another user accepts an open contract; the contract id goes between the pieces. (piece 5)
pub const ACCEPT_FORM_5: &'static str = r##"" style="list-style: none; padding: 0; margin: 10px 0; font-size: 0.9em;"></ul>
                        <input type="hidden" name="challenger_force" id="challenger_force_input_"##;

/// The form by which another user accepts an open contract; the contract id goes between the pieces. (piece 6)
pub const ACCEPT_FORM_6: &'static str = r##"" value="">
                    </div>
                    
                    <input type="text" name="challenger_assets" placeholder="Assets (e.g., Dice & Tukayyid maps)" style="margin-top: 10px;">
                    <button type="submit" style="background: #ff7b72; color: #0d1117; border-color: #ff7b72;">LOCK MATCH</button>
                </form>"##;

/// The button by which the host hands over command; the contract id goes between the pieces. (piece 0)
pub const TRANSFER_BUTTON_0: &'static str = r##"<button hx-post="/contract/"##;

/// The button by which the host hands over command; the contract id goes between the pieces. (piece 1)
pub const TRANSFER_BUTTON_1: &'static str = r##"/transfer" hx-target="#contract-"##;

/// The button by which the host hands over command; the contract id goes between the pieces. (piece 2)
pub const TRANSFER_BUTTON_2: &'static str = r##"" hx-swap="outerHTML" style="background: transparent; color: #58a6ff; border: 1px solid #58a6ff; width: auto; margin-bottom: 0; padding: 5px 10px;">
                    TRANSFER COMMAND TO CHALLENGER
                </button>"##;

/// The button by which the challenger withdraws; the contract id goes between the pieces. (piece 0)
pub const WITHDRAW_BUTTON_0: &'static str = r##"<button hx-post="/contract/"##;

/// The button by which the challenger withdraws; the contract id goes between the pieces. (piece 1)
pub const WITHDRAW_BUTTON_1: &'static str = r##"/withdraw" hx-target="#contract-"##;

/// The button by which the challenger withdraws; the contract id goes between the pieces. (piece 2)
pub const WITHDRAW_BUTTON_2: &'static str = r##"" hx-swap="outerHTML" style="background: #ff7b72; color: #0d1117; border-color: #ff7b72; width: auto; margin-bottom: 0; padding: 5px 10px;">
                    WITHDRAW
                </button>"##;

/// The challenger panel; challenger, force and assets go between the pieces. (piece 0)
pub const CHALLENGER_INFO_0: &'static str = r##"<div style="margin-top: 10px; padding: 10px; background: #0d1117; border: 1px solid #ff7b72;">
                <strong>Challenger:</strong> "##;

/// The challenger panel; challenger, force and assets go between the pieces. (piece 1)
pub const CHALLENGER_INFO_1: &'static str = r##"<br>
                <strong>Force:</strong> <br>• "##;

/// The challenger panel; challenger, force and assets go between the pieces. (piece 2)
pub const CHALLENGER_INFO_2: &'static str = r##"<br>
                <strong style="margin-top: 5px; display: inline-block;">Assets:</strong> "##;

/// The challenger panel; challenger, force and assets go between the pieces. (piece 3)
pub const CHALLENGER_INFO_3: &'static str = r##"
            </div>"##;

/// The action area of a locked contract; buttons and challenger panel go between the pieces. (piece 0)
pub const LOCKED_PANEL_0: &'static str = r##"<div style="margin-top: 15px; padding-top: 15px; border-top: 1px dashed #39d353;">
                <div style="display: flex; gap: 10px; align-items: center; margin-bottom: 10px;">
                    <span class="accepted">[ MATCH LOCKED - AWAITING DEPLOYMENT ]</span>
                    "##;

/// The action area of a locked contract; buttons and challenger panel go between the pieces. (piece 1)
pub const LOCKED_PANEL_1: &'static str = r##"
                </div>
                "##;

/// The action area of a locked contract; buttons and challenger panel go between the pieces. (piece 2)
pub const LOCKED_PANEL_2: &'static str = r##"
            </div>"##;

/// One comment; author and text go between the pieces. (piece 0)
pub const COMMENT_LINE_0: &'static str = r##"<div style="margin-top: 5px; font-size: 0.9em;"><strong>"##;

/// One comment; author and text go between the pieces. (piece 1)
pub const COMMENT_LINE_1: &'static str = r##":</strong> "##;

/// One comment; author and text go between the pieces. (piece 2)
pub const COMMENT_LINE_2: &'static str = r##"</div>"##;

/// The comms channel; the comments, then the contract id twice, go between the pieces. (piece 0)
pub const COMMS_SECTION_0: &'static str = r##"<div style="margin-top: 15px; padding-top: 15px; border-top: 1px dashed #39d353;">
            <strong style="color: #58a6ff;">:: COMMS CHANNEL ::</strong>
            <div style="margin-bottom: 10px; max-height: 150px; overflow-y: auto;">"##;

/// The comms channel; the comments, then the contract id twice, go between the pieces. (piece 1)
pub const COMMS_SECTION_1: &'static str = r##"</div>
            <form hx-post="/contract/"##;

/// The comms channel; the comments, then the contract id twice, go between the pieces. (piece 2)
pub const COMMS_SECTION_2: &'static str = r##"/comment" hx-target="#contract-"##;

/// The comms channel; the comments, then the contract id twice, go between the pieces. (piece 3)
pub const COMMS_SECTION_3: &'static str = r##"" hx-swap="outerHTML" style="display: flex; gap: 10px;">
                <input type="text" name="text" placeholder="Transmit message..." required style="margin-bottom: 0;">
                <button type="submit" style="margin-bottom: 0; width: auto; padding: 0 20px;">SEND</button>
            </form>
        </div>"##;

/// The button by which the host scrubs a contract; the contract id goes between the pieces. (piece 0)
pub const CANCEL_BUTTON_0: &'static str = r##"<button hx-delete="/contract/"##;

/// The button by which the host scrubs a contract; the contract id goes between the pieces. (piece 1)
pub const CANCEL_BUTTON_1: &'static str = r##"" hx-confirm="Are you sure you want to scrub this mission? This cannot be undone." hx-target="#contract-"##;

/// The button by which the host scrubs a contract; the contract id goes between the pieces. (piece 2)
pub const CANCEL_BUTTON_2: &'static str = r##"" hx-swap="outerHTML" style="background: transparent; color: #ff7b72; border: 1px solid #ff7b72; padding: 5px 10px; margin-top: 15px; width: 100%;">
                SCRUB MISSION (CANCEL CONTRACT)
            </button>"##;

/// A contract card; its fields go between the pieces, in the order in which they are shown. (piece 0)
pub const CARD_0: &'static str = r##"<div class="card" id="contract-"##;

/// A contract card; its fields go between the pieces, in the order in which they are shown. (piece 1)
pub const CARD_1: &'static str = r##"">
            <div style="display: flex; justify-content: space-between; border-bottom: 1px solid #39d353; margin-bottom: 10px; padding-bottom: 5px;">
                <strong>Contract #"##;

/// A contract card; its fields go between the pieces, in the order in which they are shown. (piece 2)
pub const CARD_2: &'static str = r##" - Host: "##;

/// A contract card; its fields go between the pieces, in the order in which they are shown. (piece 3)
pub const CARD_3: &'static str = r##"</strong>
                <span style="color: #e3b341;" class="countdown" data-time=""##;

/// A contract card; its fields go between the pieces, in the order in which they are shown. (piece 4)
pub const CARD_4: &'static str = r##"">CALCULATING JUMP...</span>
            </div>
            
            <div style="display: grid; grid-template-columns: 1fr 1fr; gap: 10px;">
                <div>
                    <strong>Parameters:</strong> "##;

/// A contract card; its fields go between the pieces, in the order in which they are shown. (piece 5)
pub const CARD_5: &'static str = r##" | "##;

/// A contract card; its fields go between the pieces, in the order in which they are shown. (piece 6)
pub const CARD_6: &'static str = r##" BV | "##;

/// A contract card; its fields go between the pieces, in the order in which they are shown. (piece 7)
pub const CARD_7: &'static str = r##" | "##;

/// A contract card; its fields go between the pieces, in the order in which they are shown. (piece 8)
pub const CARD_8: &'static str = r##"<br>
                    <strong>Intel Level:</strong> "##;

/// A contract card; its fields go between the pieces, in the order in which they are shown. (piece 9)
pub const CARD_9: &'static str = r##"<br>
                    <strong>Ruleset:</strong> "##;

/// A contract card; its fields go between the pieces, in the order in which they are shown. (piece 10)
pub const CARD_10: &'static str = r##"<br>
                    <strong>Optional Rules:</strong> "##;

/// A contract card; its fields go between the pieces, in the order in which they are shown. (piece 11)
pub const CARD_11: &'static str = r##"
                </div>
                <div style="border-left: 1px dashed #39d353; padding-left: 10px;">
                    <strong>Host Force:</strong><br>• "##;

/// A contract card; its fields go between the pieces, in the order in which they are shown. (piece 12)
pub const CARD_12: &'static str = r##"<br>
                    <strong style="margin-top: 5px; display: inline-block;">Host Assets:</strong> "##;

/// A contract card; its fields go between the pieces, in the order in which they are shown. (piece 13)
pub const CARD_13: &'static str = r##"
                </div>
            </div>
            
            "##;

/// A contract card; its fields go between the pieces, in the order in which they are shown. (piece 14)
pub const CARD_14: &'static str = r##"
            "##;

/// A contract card; its fields go between the pieces, in the order in which they are shown. (piece 15)
pub const CARD_15: &'static str = r##"
            "##;

/// A contract card; its fields go between the pieces, in the order in which they are shown. (piece 16)
pub const CARD_16: &'static str = r##"
        </div>"##;

/// The top of the board page; the current user and the unit catalogue go between the pieces. (piece 0)
pub const BOARD_HEADER_0: &'static str = r##"
    <!DOCTYPE html>
    <html lang="en">
    <head>
        <meta charset="UTF-8">
        <title>LGS ComStar Terminal</title>
        <script src="https://unpkg.com/htmx.org@1.9.10"></script>
        <style>
            body { background-color: #0d1117; color: #39d353; font-family: monospace; max-width: 900px; margin: 0 auto; padding: 20px; }
            .card { border: 1px solid #39d353; padding: 15px; margin-bottom: 20px; background: #161b22; }
            input, select, button { background: #0d1117; border: 1px solid #39d353; color: #39d353; padding: 8px; font-family: monospace; margin-bottom: 10px; width: 100%; box-sizing: border-box; }
            
            input[type="datetime-local"]::-webkit-calendar-picker-indicator {
                cursor: pointer;
                filter: invert(72%) sepia(35%) saturate(1005%) hue-rotate(75deg) brightness(99%) contrast(90%);
            }

            button { cursor: pointer; font-weight: bold; width: auto; padding: 10px 20px; transition: 0.2s; }
            button:hover { background: #39d353; color: #0d1117; }
            .accepted { color: #ff7b72; border-color: #ff7b72; font-weight: bold; }
            .form-grid { display: grid; grid-template-columns: 1fr 1fr; gap: 15px; }
            .checkbox-group { margin: 10px 0; border: 1px dashed #39d353; padding: 10px; }
            .checkbox-group label { display: block; cursor: pointer; margin-bottom: 5px; }
            .checkbox-group input { width: auto; margin-right: 10px; }
            .top-bar { display: flex; justify-content: space-between; align-items: center; border-bottom: 2px solid #39d353; margin-bottom: 20px; padding-bottom: 10px; }
        </style>
    </head>
    <body>
        <div class="top-bar">
            <h2>:: MERCENARY REVIEW BOARD ::</h2>
            <span>Logged in as: <strong style="color: #58a6ff;">"##;

/// The top of the board page; the current user and the unit catalogue go between the pieces. (piece 1)
pub const BOARD_HEADER_1: &'static str = r##"</strong></span>
        </div>
        
        <datalist id="unit-datalist">
            "##;

/// The top of the board page; the current user and the unit catalogue go between the pieces. (piece 2)
pub const BOARD_HEADER_2: &'static str = r##"
        </datalist>

        <div class="card">
            <h3 style="margin-top:0;">Post New Contract</h3>
            <form hx-post="/contract" hx-target="#board" hx-swap="afterbegin">
                <div class="form-grid">
                    <div>
                        <label>Date & Time:</label>
                        <input type="datetime-local" name="match_time" required>
                        <input type="hidden" name="match_epoch" id="match_epoch_input" value="">
                    </div>
                    <div>
                        <label>Target BV:</label>
                        <input type="number" name="bv2" placeholder="e.g. 5000">
                    </div>
                    <div>
                        <label>Mission Type:</label>
                        <select name="mission_type">
                            <option value="Skirmish">Stand-Up Fight</option>
                            <option value="Breakthrough">Objective Raid</option>
                            <option value="Base Assault">Extraction</option>
                            <option value="Reconnaisance">Hold the Line</option>
                            <option value="Campaign Scenario">Campaign Scenario</option>
                        </select>
                    </div>
                    <div>
                        <label>Force Composition:</label>
                        <select name="force_comp">
                            <option value="BattleMech Only">BattleMech Only</option>
                            <option value="Combined Arms">Combined Arms</option>
                        </select>
                    </div>
                    
                    <div style="grid-column: span 2; border: 1px dashed #39d353; padding: 10px;">
                        <label>Host Force Roster:</label>
                        <div style="display:flex; gap:10px; margin-top:5px;">
                            <input type="text" id="host-unit-search" list="unit-datalist" placeholder="Search Unit (e.g. Atlas AS7-D)..." style="margin-bottom:0;">
                            <button type="button" onclick="addUnit('host')" style="margin-bottom:0; width:auto;">ADD TO ROSTER</button>
                        </div>
                        <ul id="host-roster-list" style="list-style: none; padding: 0; margin: 10px 0; font-size: 0.9em;"></ul>
                        <input type="hidden" name="host_force" id="host_force_input" value="" required>
                    </div>

                    <div style="grid-column: span 2;">
                        <label>Host Assets (Optional):</label>
                        <input type="text" name="host_assets" placeholder="e.g. Desert Mats, Tokens, 3D Terrain">
                    </div>
                    
                    <div>
                        <label>Era:</label>
                        <select name="era">
                            <option value="ilClan">ilClan</option>
                            <option value="Dark Age">Dark Age</option>
                            <option value="Jihad">Jihad</option>
                            <option value="Civil War">Civil War</option>
                            <option value="Clan Invasion">Clan Invasion</option>
                            <option value="Succession Wars">Succession Wars</option>
                            <option value="Star League">Star League</option>
                        </select>
                    </div>
                    <div>
                        <label>Intel Level:</label>
                        <select name="intel_level">
                            <option value="Full Sweep (Revealed)">Full Sweep (Revealed)</option>
                            <option value="Partial Intercept">Partial Intercept</option>
                            <option value="Total Blackout (Blind)">Total Blackout (Blind)</option>
                        </select>
                    </div>
                    <div style="grid-column: span 2;">
                        <label>Ruleset:</label>
                        <select name="ruleset" hx-get="/ui/ruleset-options" hx-target="#optional-rules" hx-swap="innerHTML">
                            <option value="Core Rules (2026)">Core Rules (2026)</option>
                            <option value="Total Warfare">Total Warfare</option>
                            <option value="Introductory">Introductory</option>
                        </select>
                    </div>
                </div>

                <div id="optional-rules" class="checkbox-group">
                    <label><input type="checkbox" name="rule_battlefield_support_assets"> Battlefield Support Assets</label>
                    <label><input type="checkbox" name="rule_battlefield_support_strikes"> Battlefield Support Strikes</label>
                </div>

                <button type="submit">TRANSMIT CONTRACT</button>
            </form>
        </div>

        <h3>:: OPEN BOUNTIES ::</h3>
        <div id="board">
    "##;

/// The bottom of the board page.
pub const BOARD_FOOTER: &'static str = r##"
        </div>

        <script>
            function addUnit(prefix, id = '') {
                const searchId = id ? `${prefix}-unit-search-${id}` : `${prefix}-unit-search`;
                const listId = id ? `${prefix}-roster-list-${id}` : `${prefix}-roster-list`;
                const hiddenId = id ? `${prefix}_force_input_${id}` : `${prefix}_force_input`;
                
                const searchInput = document.getElementById(searchId);
                const val = searchInput.value;
                if (!val) return;

                const list = document.getElementById(listId);
                const hiddenInput = document.getElementById(hiddenId);

                const li = document.createElement('li');
                li.style.borderLeft = "2px solid #39d353";
                li.style.paddingLeft = "5px";
                li.style.marginBottom = "5px";
                li.style.display = "flex";
                li.style.justifyContent = "space-between";
                li.style.alignItems = "center";
                
                const textSpan = document.createElement('span');
                textSpan.innerText = val;
                li.appendChild(textSpan);
                
                const removeBtn = document.createElement('button');
                removeBtn.innerText = 'X';
                removeBtn.style.padding = '2px 5px';
                removeBtn.style.marginLeft = '10px';
                removeBtn.style.background = 'transparent';
                removeBtn.style.color = '#ff7b72';
                removeBtn.style.border = '1px solid #ff7b72';
                removeBtn.type = 'button';
                
                removeBtn.onclick = () => { 
                    li.remove(); 
                    updateHidden(list, hiddenInput);
                };
                
                li.appendChild(removeBtn);
                list.appendChild(li);

                updateHidden(list, hiddenInput);
                searchInput.value = '';
            }

            function updateHidden(listEl, hiddenEl) {
                const units = [];
                listEl.querySelectorAll('li span').forEach(span => units.push(span.innerText));
                hiddenEl.value = units.join(',');
            }

            function updateMatchEpoch() {
                const timeInput = document.querySelector('input[name="match_time"]');
                const epochInput = document.getElementById('match_epoch_input');
                if (!timeInput || !epochInput || !timeInput.value) return;

                const timestamp = new Date(timeInput.value).getTime();
                if (!Number.isNaN(timestamp)) {
                    epochInput.value = String(Math.floor(timestamp / 1000));
                }
            }

            document.addEventListener("DOMContentLoaded", () => {
                const timeInput = document.querySelector('input[name="match_time"]');
                if (timeInput && !timeInput.value) {
                    const today = new Date();
                    const yyyy = today.getFullYear();
                    const mm = String(today.getMonth() + 1).padStart(2, '0');
                    const dd = String(today.getDate()).padStart(2, '0');
                    timeInput.value = `${yyyy}-${mm}-${dd}T17:00`;
                }

                updateMatchEpoch();

                if (timeInput) {
                    timeInput.addEventListener('change', updateMatchEpoch);
                }

                const contractForm = document.querySelector('form[hx-post="/contract"]');
                if (contractForm) {
                    contractForm.addEventListener('submit', updateMatchEpoch);
                }
            });

            function updateCountdowns() {
                document.querySelectorAll('.countdown').forEach(el => {
                    const target = new Date(el.dataset.time).getTime();
                    const now = new Date().getTime();
                    const diff = target - now;
                    
                    if (isNaN(target)) return;
                    
                    if (diff < 0) { 
                        el.innerText = "[ DEPLOYMENT IN PROGRESS ]"; 
                        return; 
                    }
                    
                    const d = Math.floor(diff / (1000 * 60 * 60 * 24));
                    const h = Math.floor((diff % (1000 * 60 * 60 * 24)) / (1000 * 60 * 60));
                    const m = Math.floor((diff % (1000 * 60 * 60)) / (1000 * 60));
                    el.innerText = `T-MINUS: ${d}d ${h}h ${m}m`;
                });
            }
            setInterval(updateCountdowns, 60000); 
            updateCountdowns(); 

            document.body.addEventListener('htmx:afterSwap', function(evt) {
                updateCountdowns();
            });
        </script>
    </body>
    </html>
    "##;

/// The page shown to a visitor without a callsign.
pub const LOGIN_PAGE: &'static str = r##"
            <!DOCTYPE html>
            <html lang="en">
            <head>
                <title>LGS ComStar Terminal - Login</title>
                <style>
                    body { background-color: #0d1117; color: #39d353; font-family: monospace; max-width: 400px; margin: 100px auto; padding: 20px; text-align: center; }
                    .card { border: 1px solid #39d353; padding: 20px; background: #161b22; }
                    input, button { background: #0d1117; border: 1px solid #39d353; color: #39d353; padding: 10px; font-family: monospace; margin-bottom: 15px; width: 100%; box-sizing: border-box; }
                    button { cursor: pointer; font-weight: bold; }
                    button:hover { background: #39d353; color: #0d1117; }
                </style>
            </head>
            <body>
                <div class="card">
                    <h2>:: COMSTAR UPLINK ::</h2>
                    <p>Identify yourself to access the Mercenary Board.</p>
                    <form method="POST" action="/login">
                        <input type="text" name="username" placeholder="Enter Callsign" required>
                        <button type="submit">ESTABLISH UPLINK</button>
                    </form>
                </div>
            </body>
            </html>
        "##;

/// The reply to a login: back to the board.
pub const LOGIN_REDIRECT: &'static str = r##"<script>window.location.href = "/";</script>"##;

/// The optional rules offered with Total Warfare.
pub const TOTAL_WARFARE_OPTIONS: &'static str = r##"
        <label><input type="checkbox" name="rule_floating_crits"> Floating Criticals</label>
        <label><input type="checkbox" name="rule_forced_withdrawal"> Forced Withdrawal</label>
        <label><input type="checkbox" name="rule_backward_level_change"> Backwards Level Change</label>
        <label><input type="checkbox" name="rule_initiative_die"> Initiative Die</label>
        <label><input type="checkbox" name="rule_careful_stand"> Careful Stand</label>
        <label><input type="checkbox" name="rule_sprinting"> Sprinting</label>
        <label><input type="checkbox" name="rule_expanded_arm_flipping"> Expanded Arm Flippping</label>
        <label><input type="checkbox" name="rule_front-loaded_deployment"> Front-Loaded Deployment</label>
        "##;

/// The optional rules offered with the Core Rules (2026).
pub const CORE_RULES_OPTIONS: &'static str = r##"
        <label><input type="checkbox" name="rule_battlefield_support_assets"> Battlefield Support Assets</label>
        <label><input type="checkbox" name="rule_battlefield_support_strikes"> Battlefield Support Strikes</label>
        <label><input type="checkbox" name="rule_initiative_die"> Initiative Die</label>
        "##;

/// What is offered with any other ruleset.
pub const NO_RULE_OPTIONS: &'static str = r##"
    "##;

} // verus!
