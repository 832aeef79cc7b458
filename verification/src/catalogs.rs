//! The message catalogs: for each message a token and its English and
//! Russian texts. A catalog's text has a comment line and then one line per
//! message, the token and the text separated by a tab.
use vstd::prelude::*;

use crate::i18n::{entry_of, find_translation, lookup_spec, Locale};
use crate::setup::lemma_terminated_append;
use crate::text::{extend_str, index_of, lemma_index_of, lemma_lines_terminated, lines, one_line, terminated};

verus! {

/// The number of messages in each catalog.
pub const ENTRY_COUNT: usize = 118;

/// The token of the message at a place in the catalogs.
pub open spec fn entry_token(i: int) -> Seq<char> {
    if i == 0 {
        "activity_waiting_for_commands"@
    } else if i == 1 {
        "advanced"@
    } else if i == 2 {
        "advanced_setup"@
    } else if i == 3 {
        "advanced_setup_hint"@
    } else if i == 4 {
        "auth_file"@
    } else if i == 5 {
        "authentication_failed"@
    } else if i == 6 {
        "authentication_setup_hint"@
    } else if i == 7 {
        "authorization_code_detail"@
    } else if i == 8 {
        "authorization_code_ready"@
    } else if i == 9 {
        "auto"@
    } else if i == 10 {
        "autostart_disabled"@
    } else if i == 11 {
        "autostart_file"@
    } else if i == 12 {
        "back"@
    } else if i == 13 {
        "choose"@
    } else if i == 14 {
        "choose_auth_file"@
    } else if i == 15 {
        "choose_file"@
    } else if i == 16 {
        "choose_file_to_publish"@
    } else if i == 17 {
        "choose_folder"@
    } else if i == 18 {
        "choose_folder_to_publish"@
    } else if i == 19 {
        "choose_sync_directory"@
    } else if i == 20 {
        "choose_sync_folder"@
    } else if i == 21 {
        "cli_coverage"@
    } else if i == 22 {
        "cli_coverage_description"@
    } else if i == 23 {
        "command_docs"@
    } else if i == 24 {
        "command_failed"@
    } else if i == 25 {
        "command_failed_sentence"@
    } else if i == 26 {
        "command_finished"@
    } else if i == 27 {
        "command_finished_successfully"@
    } else if i == 28 {
        "command_output"@
    } else if i == 29 {
        "config_file"@
    } else if i == 30 {
        "configuration_save_failed"@
    } else if i == 31 {
        "configuration_saved"@
    } else if i == 32 {
        "connect_yandex_disk"@
    } else if i == 33 {
        "connected"@
    } else if i == 34 {
        "copy_link"@
    } else if i == 35 {
        "daemon_status"@
    } else if i == 36 {
        "default"@
    } else if i == 37 {
        "diskette_ready"@
    } else if i == 38 {
        "error"@
    } else if i == 39 {
        "exclude_dirs"@
    } else if i == 40 {
        "failed"@
    } else if i == 41 {
        "failed_to_open_authentication_page"@
    } else if i == 42 {
        "failed_to_open_sync_folder"@
    } else if i == 43 {
        "file_or_folder_path"@
    } else if i == 44 {
        "flatpak_sync_folder_location"@
    } else if i == 45 {
        "flatpak_sync_folder_locked"@
    } else if i == 46 {
        "force_sync"@
    } else if i == 47 {
        "foreground_daemon_launched_with_pid"@
    } else if i == 48 {
        "get_started"@
    } else if i == 49 {
        "hide_settings"@
    } else if i == 50 {
        "install_cli"@
    } else if i == 51 {
        "last_action"@
    } else if i == 52 {
        "launch_foreground_daemon"@
    } else if i == 53 {
        "launch_sync_at_login"@
    } else if i == 54 {
        "learn_more"@
    } else if i == 55 {
        "manual"@
    } else if i == 56 {
        "manual_proxy"@
    } else if i == 57 {
        "no"@
    } else if i == 58 {
        "no_exit_code"@
    } else if i == 59 {
        "no_recent_activity"@
    } else if i == 60 {
        "not_available_yet"@
    } else if i == 61 {
        "onboarding_step_auth"@
    } else if i == 62 {
        "onboarding_step_folder"@
    } else if i == 63 {
        "onboarding_step_sync"@
    } else if i == 64 {
        "open_auth_page"@
    } else if i == 65 {
        "open_sync_folder"@
    } else if i == 66 {
        "open_yandex_disk_cli_documentation"@
    } else if i == 67 {
        "opening_authentication_page"@
    } else if i == 68 {
        "opening_sync_folder"@
    } else if i == 69 {
        "overview"@
    } else if i == 70 {
        "overwrite_local_conflicts"@
    } else if i == 71 {
        "path"@
    } else if i == 72 {
        "paths"@
    } else if i == 73 {
        "pause_sync"@
    } else if i == 74 {
        "proxy_mode"@
    } else if i == 75 {
        "public_links"@
    } else if i == 76 {
        "publish"@
    } else if i == 77 {
        "publish_requires_path"@
    } else if i == 78 {
        "published_link"@
    } else if i == 79 {
        "published_link_copied"@
    } else if i == 80 {
        "published_link_hint"@
    } else if i == 81 {
        "published_link_placeholder"@
    } else if i == 82 {
        "queued"@
    } else if i == 83 {
        "read_only_sync"@
    } else if i == 84 {
        "recent_activity"@
    } else if i == 85 {
        "reference"@
    } else if i == 86 {
        "refresh_status"@
    } else if i == 87 {
        "resume_sync"@
    } else if i == 88 {
        "review_settings"@
    } else if i == 89 {
        "run_get_token_first"@
    } else if i == 90 {
        "run_status_to_inspect_daemon"@
    } else if i == 91 {
        "save_configuration"@
    } else if i == 92 {
        "saving_yandex_disk_configuration"@
    } else if i == 93 {
        "selected_file_no_local_path"@
    } else if i == 94 {
        "selected_folder_no_local_path"@
    } else if i == 95 {
        "settings"@
    } else if i == 96 {
        "sharing"@
    } else if i == 97 {
        "show_cli_help"@
    } else if i == 98 {
        "start_or_status_after_token"@
    } else if i == 99 {
        "status"@
    } else if i == 100 {
        "status_check_failed"@
    } else if i == 101 {
        "status_not_checked"@
    } else if i == 102 {
        "stderr_label"@
    } else if i == 103 {
        "stdout_label"@
    } else if i == 104 {
        "storage"@
    } else if i == 105 {
        "storage_status_hint"@
    } else if i == 106 {
        "storage_waiting_for_status"@
    } else if i == 107 {
        "success"@
    } else if i == 108 {
        "sync_directory_hint"@
    } else if i == 109 {
        "sync_folder"@
    } else if i == 110 {
        "sync_settings"@
    } else if i == 111 {
        "sync_status"@
    } else if i == 112 {
        "unpublish"@
    } else if i == 113 {
        "unpublish_requires_path"@
    } else if i == 114 {
        "use_default_folder"@
    } else if i == 115 {
        "welcome_body"@
    } else if i == 116 {
        "welcome_title"@
    } else if i == 117 {
        "yandex_disk_connected"@
    } else {
        Seq::empty()
    }
}

/// The English text of the message at a place.
pub open spec fn english_text(i: int) -> Seq<char> {
    if i == 0 {
        "Run a command to see its result here."@
    } else if i == 1 {
        "Advanced"@
    } else if i == 2 {
        "Advanced setup"@
    } else if i == 3 {
        "Exclusions, proxy and start-up options."@
    } else if i == 4 {
        "Authorization file"@
    } else if i == 5 {
        "Authentication failed"@
    } else if i == 6 {
        "Sign in to Yandex Disk to create the authorization file."@
    } else if i == 7 {
        "Enter this code on the Yandex authorization page."@
    } else if i == 8 {
        "Authorization code"@
    } else if i == 9 {
        "Auto"@
    } else if i == 10 {
        "Start at login is disabled."@
    } else if i == 11 {
        "Autostart file:"@
    } else if i == 12 {
        "Back"@
    } else if i == 13 {
        "Choose…"@
    } else if i == 14 {
        "Choose the authorization file"@
    } else if i == 15 {
        "Choose file…"@
    } else if i == 16 {
        "Choose a file to publish"@
    } else if i == 17 {
        "Choose folder…"@
    } else if i == 18 {
        "Choose a folder to publish"@
    } else if i == 19 {
        "Choose the sync folder"@
    } else if i == 20 {
        "Choose folder"@
    } else if i == 21 {
        "Command line coverage"@
    } else if i == 22 {
        "Diskette runs the yandex-disk command line tool: token, start, stop, status, sync, publish and unpublish."@
    } else if i == 23 {
        "Command reference"@
    } else if i == 24 {
        "Command failed"@
    } else if i == 25 {
        "The command failed."@
    } else if i == 26 {
        "Command finished"@
    } else if i == 27 {
        "The command finished successfully."@
    } else if i == 28 {
        "Command output"@
    } else if i == 29 {
        "Configuration file"@
    } else if i == 30 {
        "Could not save the configuration:"@
    } else if i == 31 {
        "Configuration saved:"@
    } else if i == 32 {
        "Connect Yandex Disk"@
    } else if i == 33 {
        "Connected"@
    } else if i == 34 {
        "Copy link"@
    } else if i == 35 {
        "Daemon status"@
    } else if i == 36 {
        "Default"@
    } else if i == 37 {
        "Diskette is ready."@
    } else if i == 38 {
        "Error"@
    } else if i == 39 {
        "Excluded folders"@
    } else if i == 40 {
        "failed"@
    } else if i == 41 {
        "Could not open the authentication page"@
    } else if i == 42 {
        "Could not open the sync folder:"@
    } else if i == 43 {
        "File or folder path"@
    } else if i == 44 {
        "In the Flatpak sandbox the folder is stored at"@
    } else if i == 45 {
        "The sync folder is fixed inside the Flatpak sandbox."@
    } else if i == 46 {
        "Sync now"@
    } else if i == 47 {
        "Foreground daemon launched with PID"@
    } else if i == 48 {
        "Get started"@
    } else if i == 49 {
        "Hide settings"@
    } else if i == 50 {
        "Install the CLI"@
    } else if i == 51 {
        "Last action:"@
    } else if i == 52 {
        "Run in foreground"@
    } else if i == 53 {
        "Start syncing at login"@
    } else if i == 54 {
        "Learn more"@
    } else if i == 55 {
        "Manual"@
    } else if i == 56 {
        "Manual proxy"@
    } else if i == 57 {
        "No"@
    } else if i == 58 {
        "no exit code"@
    } else if i == 59 {
        "No recent activity"@
    } else if i == 60 {
        "Not available yet"@
    } else if i == 61 {
        "Sign in with your Yandex account"@
    } else if i == 62 {
        "Choose a folder to keep in sync"@
    } else if i == 63 {
        "Start syncing"@
    } else if i == 64 {
        "Open the authorization page"@
    } else if i == 65 {
        "Open sync folder"@
    } else if i == 66 {
        "Open the Yandex Disk CLI documentation"@
    } else if i == 67 {
        "Opening the authentication page:"@
    } else if i == 68 {
        "Opening the sync folder:"@
    } else if i == 69 {
        "Overview"@
    } else if i == 70 {
        "Overwrite local files on conflicts"@
    } else if i == 71 {
        "Path"@
    } else if i == 72 {
        "Paths"@
    } else if i == 73 {
        "Pause sync"@
    } else if i == 74 {
        "Proxy"@
    } else if i == 75 {
        "Public links"@
    } else if i == 76 {
        "Publish"@
    } else if i == 77 {
        "Choose a file or folder to publish."@
    } else if i == 78 {
        "Published link"@
    } else if i == 79 {
        "The link was copied to the clipboard."@
    } else if i == 80 {
        "The public link appears here after publishing."@
    } else if i == 81 {
        "No link yet"@
    } else if i == 82 {
        "Queued:"@
    } else if i == 83 {
        "Read-only sync"@
    } else if i == 84 {
        "Recent activity"@
    } else if i == 85 {
        "Reference"@
    } else if i == 86 {
        "Refresh status"@
    } else if i == 87 {
        "Resume sync"@
    } else if i == 88 {
        "Review settings"@
    } else if i == 89 {
        "Sign in first to create the authorization file."@
    } else if i == 90 {
        "Check the status to inspect the daemon."@
    } else if i == 91 {
        "Save configuration"@
    } else if i == 92 {
        "Saving the Yandex Disk configuration…"@
    } else if i == 93 {
        "The selected file has no local path."@
    } else if i == 94 {
        "The selected folder has no local path."@
    } else if i == 95 {
        "Settings"@
    } else if i == 96 {
        "Sharing"@
    } else if i == 97 {
        "Show CLI help"@
    } else if i == 98 {
        "Start syncing or check the status."@
    } else if i == 99 {
        "Status"@
    } else if i == 100 {
        "Status check failed"@
    } else if i == 101 {
        "Status not checked"@
    } else if i == 102 {
        "stderr:"@
    } else if i == 103 {
        "stdout:"@
    } else if i == 104 {
        "Storage"@
    } else if i == 105 {
        "Storage details appear after a status check."@
    } else if i == 106 {
        "Waiting for status"@
    } else if i == 107 {
        "success"@
    } else if i == 108 {
        "The folder that is kept in sync with Yandex Disk."@
    } else if i == 109 {
        "Sync folder"@
    } else if i == 110 {
        "Sync settings"@
    } else if i == 111 {
        "Sync status"@
    } else if i == 112 {
        "Unpublish"@
    } else if i == 113 {
        "Choose a file or folder to unpublish."@
    } else if i == 114 {
        "Use the default folder"@
    } else if i == 115 {
        "Diskette keeps a folder in sync with Yandex Disk using the official command line client."@
    } else if i == 116 {
        "Welcome to Diskette"@
    } else if i == 117 {
        "Yandex Disk connected"@
    } else {
        Seq::empty()
    }
}

/// The Russian text of the message at a place.
pub open spec fn russian_text(i: int) -> Seq<char> {
    if i == 0 {
        "Запустите команду, чтобы увидеть здесь её результат."@
    } else if i == 1 {
        "Дополнительно"@
    } else if i == 2 {
        "Расширенная настройка"@
    } else if i == 3 {
        "Исключения, прокси и параметры запуска."@
    } else if i == 4 {
        "Файл авторизации"@
    } else if i == 5 {
        "Ошибка аутентификации"@
    } else if i == 6 {
        "Войдите в Яндекс Диск, чтобы создать файл авторизации."@
    } else if i == 7 {
        "Введите этот код на странице авторизации Яндекса."@
    } else if i == 8 {
        "Код авторизации"@
    } else if i == 9 {
        "Авто"@
    } else if i == 10 {
        "Запуск при входе отключён."@
    } else if i == 11 {
        "Файл автозапуска:"@
    } else if i == 12 {
        "Назад"@
    } else if i == 13 {
        "Выбрать…"@
    } else if i == 14 {
        "Выберите файл авторизации"@
    } else if i == 15 {
        "Выбрать файл…"@
    } else if i == 16 {
        "Выберите файл для публикации"@
    } else if i == 17 {
        "Выбрать папку…"@
    } else if i == 18 {
        "Выберите папку для публикации"@
    } else if i == 19 {
        "Выберите папку синхронизации"@
    } else if i == 20 {
        "Выбрать папку"@
    } else if i == 21 {
        "Возможности командной строки"@
    } else if i == 22 {
        "Diskette запускает консольный клиент yandex-disk: token, start, stop, status, sync, publish и unpublish."@
    } else if i == 23 {
        "Справочник команд"@
    } else if i == 24 {
        "Команда завершилась с ошибкой"@
    } else if i == 25 {
        "Команда завершилась с ошибкой."@
    } else if i == 26 {
        "Команда выполнена"@
    } else if i == 27 {
        "Команда успешно выполнена."@
    } else if i == 28 {
        "Вывод команд"@
    } else if i == 29 {
        "Файл конфигурации"@
    } else if i == 30 {
        "Не удалось сохранить конфигурацию:"@
    } else if i == 31 {
        "Конфигурация сохранена:"@
    } else if i == 32 {
        "Подключить Яндекс Диск"@
    } else if i == 33 {
        "Подключено"@
    } else if i == 34 {
        "Копировать ссылку"@
    } else if i == 35 {
        "Состояние демона"@
    } else if i == 36 {
        "По умолчанию"@
    } else if i == 37 {
        "Diskette готов к работе."@
    } else if i == 38 {
        "Ошибка"@
    } else if i == 39 {
        "Исключённые папки"@
    } else if i == 40 {
        "ошибка"@
    } else if i == 41 {
        "Не удалось открыть страницу аутентификации"@
    } else if i == 42 {
        "Не удалось открыть папку синхронизации:"@
    } else if i == 43 {
        "Путь к файлу или папке"@
    } else if i == 44 {
        "В песочнице Flatpak папка хранится в"@
    } else if i == 45 {
        "Папка синхронизации задана песочницей Flatpak."@
    } else if i == 46 {
        "Синхронизировать"@
    } else if i == 47 {
        "Демон в активном режиме запущен с PID"@
    } else if i == 48 {
        "Начать"@
    } else if i == 49 {
        "Скрыть настройки"@
    } else if i == 50 {
        "Установить клиент"@
    } else if i == 51 {
        "Последнее действие:"@
    } else if i == 52 {
        "Запустить в активном режиме"@
    } else if i == 53 {
        "Запускать синхронизацию при входе"@
    } else if i == 54 {
        "Подробнее"@
    } else if i == 55 {
        "Вручную"@
    } else if i == 56 {
        "Прокси вручную"@
    } else if i == 57 {
        "Нет"@
    } else if i == 58 {
        "нет кода выхода"@
    } else if i == 59 {
        "Нет недавних действий"@
    } else if i == 60 {
        "Пока недоступно"@
    } else if i == 61 {
        "Войдите с учётной записью Яндекса"@
    } else if i == 62 {
        "Выберите папку для синхронизации"@
    } else if i == 63 {
        "Начните синхронизацию"@
    } else if i == 64 {
        "Открыть страницу авторизации"@
    } else if i == 65 {
        "Открыть папку синхронизации"@
    } else if i == 66 {
        "Открыть документацию консольного клиента Яндекс Диска"@
    } else if i == 67 {
        "Открывается страница аутентификации:"@
    } else if i == 68 {
        "Открывается папка синхронизации:"@
    } else if i == 69 {
        "Обзор"@
    } else if i == 70 {
        "Перезаписывать локальные файлы при конфликтах"@
    } else if i == 71 {
        "Путь"@
    } else if i == 72 {
        "Пути"@
    } else if i == 73 {
        "Приостановить"@
    } else if i == 74 {
        "Прокси"@
    } else if i == 75 {
        "Публичные ссылки"@
    } else if i == 76 {
        "Опубликовать"@
    } else if i == 77 {
        "Выберите файл или папку для публикации."@
    } else if i == 78 {
        "Публичная ссылка"@
    } else if i == 79 {
        "Ссылка скопирована в буфер обмена."@
    } else if i == 80 {
        "После публикации здесь появится публичная ссылка."@
    } else if i == 81 {
        "Ссылки пока нет"@
    } else if i == 82 {
        "В очереди:"@
    } else if i == 83 {
        "Синхронизация только для чтения"@
    } else if i == 84 {
        "Недавние действия"@
    } else if i == 85 {
        "Справка"@
    } else if i == 86 {
        "Обновить состояние"@
    } else if i == 87 {
        "Возобновить"@
    } else if i == 88 {
        "Проверить настройки"@
    } else if i == 89 {
        "Сначала войдите, чтобы создать файл авторизации."@
    } else if i == 90 {
        "Проверьте состояние, чтобы узнать, работает ли демон."@
    } else if i == 91 {
        "Сохранить конфигурацию"@
    } else if i == 92 {
        "Сохранение конфигурации Яндекс Диска…"@
    } else if i == 93 {
        "У выбранного файла нет локального пути."@
    } else if i == 94 {
        "У выбранной папки нет локального пути."@
    } else if i == 95 {
        "Настройки"@
    } else if i == 96 {
        "Доступ"@
    } else if i == 97 {
        "Справка клиента"@
    } else if i == 98 {
        "Запустите синхронизацию или проверьте состояние."@
    } else if i == 99 {
        "Состояние"@
    } else if i == 100 {
        "Не удалось проверить состояние"@
    } else if i == 101 {
        "Состояние не проверено"@
    } else if i == 102 {
        "stderr:"@
    } else if i == 103 {
        "stdout:"@
    } else if i == 104 {
        "Хранилище"@
    } else if i == 105 {
        "Сведения о хранилище появятся после проверки состояния."@
    } else if i == 106 {
        "Ожидание состояния"@
    } else if i == 107 {
        "успешно"@
    } else if i == 108 {
        "Папка, которая синхронизируется с Яндекс Диском."@
    } else if i == 109 {
        "Папка синхронизации"@
    } else if i == 110 {
        "Параметры синхронизации"@
    } else if i == 111 {
        "Состояние синхронизации"@
    } else if i == 112 {
        "Снять публикацию"@
    } else if i == 113 {
        "Выберите файл или папку, публикацию которых нужно снять."@
    } else if i == 114 {
        "Использовать папку по умолчанию"@
    } else if i == 115 {
        "Diskette синхронизирует папку с Яндекс Диском с помощью официального консольного клиента."@
    } else if i == 116 {
        "Добро пожаловать в Diskette"@
    } else if i == 117 {
        "Яндекс Диск подключён"@
    } else {
        Seq::empty()
    }
}

pub open spec fn entry_text(locale: Locale, i: int) -> Seq<char> {
    match locale {
        Locale::English => english_text(i),
        Locale::Russian => russian_text(i),
    }
}

/// The comment line that opens a catalog.
pub open spec fn header(locale: Locale) -> Seq<char> {
    match locale {
        Locale::English => "# Diskette messages: English"@,
        Locale::Russian => "# Diskette messages: Russian"@,
    }
}

/// The line of a message: its token, a tab and its text.
pub open spec fn entry_line(token: Seq<char>, text: Seq<char>) -> Seq<char> {
    token + seq!['\t'] + text
}

/// The lines of a catalog.
pub open spec fn catalog_lines(locale: Locale) -> Seq<Seq<char>> {
    seq![header(locale)] + Seq::new(
        ENTRY_COUNT as nat,
        |i: int| entry_line(entry_token(i), entry_text(locale, i)),
    )
}

/// The text of a catalog: its lines, each ended by a line feed.
pub open spec fn catalog_text(locale: Locale) -> Seq<char> {
    terminated(catalog_lines(locale))
}

fn token_at(i: usize) -> (r: &'static str)
    requires
        i < ENTRY_COUNT,
    ensures
        r@ == entry_token(i as int),
{
    if i == 0 {
        "activity_waiting_for_commands"
    } else if i == 1 {
        "advanced"
    } else if i == 2 {
        "advanced_setup"
    } else if i == 3 {
        "advanced_setup_hint"
    } else if i == 4 {
        "auth_file"
    } else if i == 5 {
        "authentication_failed"
    } else if i == 6 {
        "authentication_setup_hint"
    } else if i == 7 {
        "authorization_code_detail"
    } else if i == 8 {
        "authorization_code_ready"
    } else if i == 9 {
        "auto"
    } else if i == 10 {
        "autostart_disabled"
    } else if i == 11 {
        "autostart_file"
    } else if i == 12 {
        "back"
    } else if i == 13 {
        "choose"
    } else if i == 14 {
        "choose_auth_file"
    } else if i == 15 {
        "choose_file"
    } else if i == 16 {
        "choose_file_to_publish"
    } else if i == 17 {
        "choose_folder"
    } else if i == 18 {
        "choose_folder_to_publish"
    } else if i == 19 {
        "choose_sync_directory"
    } else if i == 20 {
        "choose_sync_folder"
    } else if i == 21 {
        "cli_coverage"
    } else if i == 22 {
        "cli_coverage_description"
    } else if i == 23 {
        "command_docs"
    } else if i == 24 {
        "command_failed"
    } else if i == 25 {
        "command_failed_sentence"
    } else if i == 26 {
        "command_finished"
    } else if i == 27 {
        "command_finished_successfully"
    } else if i == 28 {
        "command_output"
    } else if i == 29 {
        "config_file"
    } else if i == 30 {
        "configuration_save_failed"
    } else if i == 31 {
        "configuration_saved"
    } else if i == 32 {
        "connect_yandex_disk"
    } else if i == 33 {
        "connected"
    } else if i == 34 {
        "copy_link"
    } else if i == 35 {
        "daemon_status"
    } else if i == 36 {
        "default"
    } else if i == 37 {
        "diskette_ready"
    } else if i == 38 {
        "error"
    } else if i == 39 {
        "exclude_dirs"
    } else if i == 40 {
        "failed"
    } else if i == 41 {
        "failed_to_open_authentication_page"
    } else if i == 42 {
        "failed_to_open_sync_folder"
    } else if i == 43 {
        "file_or_folder_path"
    } else if i == 44 {
        "flatpak_sync_folder_location"
    } else if i == 45 {
        "flatpak_sync_folder_locked"
    } else if i == 46 {
        "force_sync"
    } else if i == 47 {
        "foreground_daemon_launched_with_pid"
    } else if i == 48 {
        "get_started"
    } else if i == 49 {
        "hide_settings"
    } else if i == 50 {
        "install_cli"
    } else if i == 51 {
        "last_action"
    } else if i == 52 {
        "launch_foreground_daemon"
    } else if i == 53 {
        "launch_sync_at_login"
    } else if i == 54 {
        "learn_more"
    } else if i == 55 {
        "manual"
    } else if i == 56 {
        "manual_proxy"
    } else if i == 57 {
        "no"
    } else if i == 58 {
        "no_exit_code"
    } else if i == 59 {
        "no_recent_activity"
    } else if i == 60 {
        "not_available_yet"
    } else if i == 61 {
        "onboarding_step_auth"
    } else if i == 62 {
        "onboarding_step_folder"
    } else if i == 63 {
        "onboarding_step_sync"
    } else if i == 64 {
        "open_auth_page"
    } else if i == 65 {
        "open_sync_folder"
    } else if i == 66 {
        "open_yandex_disk_cli_documentation"
    } else if i == 67 {
        "opening_authentication_page"
    } else if i == 68 {
        "opening_sync_folder"
    } else if i == 69 {
        "overview"
    } else if i == 70 {
        "overwrite_local_conflicts"
    } else if i == 71 {
        "path"
    } else if i == 72 {
        "paths"
    } else if i == 73 {
        "pause_sync"
    } else if i == 74 {
        "proxy_mode"
    } else if i == 75 {
        "public_links"
    } else if i == 76 {
        "publish"
    } else if i == 77 {
        "publish_requires_path"
    } else if i == 78 {
        "published_link"
    } else if i == 79 {
        "published_link_copied"
    } else if i == 80 {
        "published_link_hint"
    } else if i == 81 {
        "published_link_placeholder"
    } else if i == 82 {
        "queued"
    } else if i == 83 {
        "read_only_sync"
    } else if i == 84 {
        "recent_activity"
    } else if i == 85 {
        "reference"
    } else if i == 86 {
        "refresh_status"
    } else if i == 87 {
        "resume_sync"
    } else if i == 88 {
        "review_settings"
    } else if i == 89 {
        "run_get_token_first"
    } else if i == 90 {
        "run_status_to_inspect_daemon"
    } else if i == 91 {
        "save_configuration"
    } else if i == 92 {
        "saving_yandex_disk_configuration"
    } else if i == 93 {
        "selected_file_no_local_path"
    } else if i == 94 {
        "selected_folder_no_local_path"
    } else if i == 95 {
        "settings"
    } else if i == 96 {
        "sharing"
    } else if i == 97 {
        "show_cli_help"
    } else if i == 98 {
        "start_or_status_after_token"
    } else if i == 99 {
        "status"
    } else if i == 100 {
        "status_check_failed"
    } else if i == 101 {
        "status_not_checked"
    } else if i == 102 {
        "stderr_label"
    } else if i == 103 {
        "stdout_label"
    } else if i == 104 {
        "storage"
    } else if i == 105 {
        "storage_status_hint"
    } else if i == 106 {
        "storage_waiting_for_status"
    } else if i == 107 {
        "success"
    } else if i == 108 {
        "sync_directory_hint"
    } else if i == 109 {
        "sync_folder"
    } else if i == 110 {
        "sync_settings"
    } else if i == 111 {
        "sync_status"
    } else if i == 112 {
        "unpublish"
    } else if i == 113 {
        "unpublish_requires_path"
    } else if i == 114 {
        "use_default_folder"
    } else if i == 115 {
        "welcome_body"
    } else if i == 116 {
        "welcome_title"
    } else {
        "yandex_disk_connected"
    }
}

fn english_at(i: usize) -> (r: &'static str)
    requires
        i < ENTRY_COUNT,
    ensures
        r@ == english_text(i as int),
{
    if i == 0 {
        "Run a command to see its result here."
    } else if i == 1 {
        "Advanced"
    } else if i == 2 {
        "Advanced setup"
    } else if i == 3 {
        "Exclusions, proxy and start-up options."
    } else if i == 4 {
        "Authorization file"
    } else if i == 5 {
        "Authentication failed"
    } else if i == 6 {
        "Sign in to Yandex Disk to create the authorization file."
    } else if i == 7 {
        "Enter this code on the Yandex authorization page."
    } else if i == 8 {
        "Authorization code"
    } else if i == 9 {
        "Auto"
    } else if i == 10 {
        "Start at login is disabled."
    } else if i == 11 {
        "Autostart file:"
    } else if i == 12 {
        "Back"
    } else if i == 13 {
        "Choose…"
    } else if i == 14 {
        "Choose the authorization file"
    } else if i == 15 {
        "Choose file…"
    } else if i == 16 {
        "Choose a file to publish"
    } else if i == 17 {
        "Choose folder…"
    } else if i == 18 {
        "Choose a folder to publish"
    } else if i == 19 {
        "Choose the sync folder"
    } else if i == 20 {
        "Choose folder"
    } else if i == 21 {
        "Command line coverage"
    } else if i == 22 {
        "Diskette runs the yandex-disk command line tool: token, start, stop, status, sync, publish and unpublish."
    } else if i == 23 {
        "Command reference"
    } else if i == 24 {
        "Command failed"
    } else if i == 25 {
        "The command failed."
    } else if i == 26 {
        "Command finished"
    } else if i == 27 {
        "The command finished successfully."
    } else if i == 28 {
        "Command output"
    } else if i == 29 {
        "Configuration file"
    } else if i == 30 {
        "Could not save the configuration:"
    } else if i == 31 {
        "Configuration saved:"
    } else if i == 32 {
        "Connect Yandex Disk"
    } else if i == 33 {
        "Connected"
    } else if i == 34 {
        "Copy link"
    } else if i == 35 {
        "Daemon status"
    } else if i == 36 {
        "Default"
    } else if i == 37 {
        "Diskette is ready."
    } else if i == 38 {
        "Error"
    } else if i == 39 {
        "Excluded folders"
    } else if i == 40 {
        "failed"
    } else if i == 41 {
        "Could not open the authentication page"
    } else if i == 42 {
        "Could not open the sync folder:"
    } else if i == 43 {
        "File or folder path"
    } else if i == 44 {
        "In the Flatpak sandbox the folder is stored at"
    } else if i == 45 {
        "The sync folder is fixed inside the Flatpak sandbox."
    } else if i == 46 {
        "Sync now"
    } else if i == 47 {
        "Foreground daemon launched with PID"
    } else if i == 48 {
        "Get started"
    } else if i == 49 {
        "Hide settings"
    } else if i == 50 {
        "Install the CLI"
    } else if i == 51 {
        "Last action:"
    } else if i == 52 {
        "Run in foreground"
    } else if i == 53 {
        "Start syncing at login"
    } else if i == 54 {
        "Learn more"
    } else if i == 55 {
        "Manual"
    } else if i == 56 {
        "Manual proxy"
    } else if i == 57 {
        "No"
    } else if i == 58 {
        "no exit code"
    } else if i == 59 {
        "No recent activity"
    } else if i == 60 {
        "Not available yet"
    } else if i == 61 {
        "Sign in with your Yandex account"
    } else if i == 62 {
        "Choose a folder to keep in sync"
    } else if i == 63 {
        "Start syncing"
    } else if i == 64 {
        "Open the authorization page"
    } else if i == 65 {
        "Open sync folder"
    } else if i == 66 {
        "Open the Yandex Disk CLI documentation"
    } else if i == 67 {
        "Opening the authentication page:"
    } else if i == 68 {
        "Opening the sync folder:"
    } else if i == 69 {
        "Overview"
    } else if i == 70 {
        "Overwrite local files on conflicts"
    } else if i == 71 {
        "Path"
    } else if i == 72 {
        "Paths"
    } else if i == 73 {
        "Pause sync"
    } else if i == 74 {
        "Proxy"
    } else if i == 75 {
        "Public links"
    } else if i == 76 {
        "Publish"
    } else if i == 77 {
        "Choose a file or folder to publish."
    } else if i == 78 {
        "Published link"
    } else if i == 79 {
        "The link was copied to the clipboard."
    } else if i == 80 {
        "The public link appears here after publishing."
    } else if i == 81 {
        "No link yet"
    } else if i == 82 {
        "Queued:"
    } else if i == 83 {
        "Read-only sync"
    } else if i == 84 {
        "Recent activity"
    } else if i == 85 {
        "Reference"
    } else if i == 86 {
        "Refresh status"
    } else if i == 87 {
        "Resume sync"
    } else if i == 88 {
        "Review settings"
    } else if i == 89 {
        "Sign in first to create the authorization file."
    } else if i == 90 {
        "Check the status to inspect the daemon."
    } else if i == 91 {
        "Save configuration"
    } else if i == 92 {
        "Saving the Yandex Disk configuration…"
    } else if i == 93 {
        "The selected file has no local path."
    } else if i == 94 {
        "The selected folder has no local path."
    } else if i == 95 {
        "Settings"
    } else if i == 96 {
        "Sharing"
    } else if i == 97 {
        "Show CLI help"
    } else if i == 98 {
        "Start syncing or check the status."
    } else if i == 99 {
        "Status"
    } else if i == 100 {
        "Status check failed"
    } else if i == 101 {
        "Status not checked"
    } else if i == 102 {
        "stderr:"
    } else if i == 103 {
        "stdout:"
    } else if i == 104 {
        "Storage"
    } else if i == 105 {
        "Storage details appear after a status check."
    } else if i == 106 {
        "Waiting for status"
    } else if i == 107 {
        "success"
    } else if i == 108 {
        "The folder that is kept in sync with Yandex Disk."
    } else if i == 109 {
        "Sync folder"
    } else if i == 110 {
        "Sync settings"
    } else if i == 111 {
        "Sync status"
    } else if i == 112 {
        "Unpublish"
    } else if i == 113 {
        "Choose a file or folder to unpublish."
    } else if i == 114 {
        "Use the default folder"
    } else if i == 115 {
        "Diskette keeps a folder in sync with Yandex Disk using the official command line client."
    } else if i == 116 {
        "Welcome to Diskette"
    } else {
        "Yandex Disk connected"
    }
}

fn russian_at(i: usize) -> (r: &'static str)
    requires
        i < ENTRY_COUNT,
    ensures
        r@ == russian_text(i as int),
{
    if i == 0 {
        "Запустите команду, чтобы увидеть здесь её результат."
    } else if i == 1 {
        "Дополнительно"
    } else if i == 2 {
        "Расширенная настройка"
    } else if i == 3 {
        "Исключения, прокси и параметры запуска."
    } else if i == 4 {
        "Файл авторизации"
    } else if i == 5 {
        "Ошибка аутентификации"
    } else if i == 6 {
        "Войдите в Яндекс Диск, чтобы создать файл авторизации."
    } else if i == 7 {
        "Введите этот код на странице авторизации Яндекса."
    } else if i == 8 {
        "Код авторизации"
    } else if i == 9 {
        "Авто"
    } else if i == 10 {
        "Запуск при входе отключён."
    } else if i == 11 {
        "Файл автозапуска:"
    } else if i == 12 {
        "Назад"
    } else if i == 13 {
        "Выбрать…"
    } else if i == 14 {
        "Выберите файл авторизации"
    } else if i == 15 {
        "Выбрать файл…"
    } else if i == 16 {
        "Выберите файл для публикации"
    } else if i == 17 {
        "Выбрать папку…"
    } else if i == 18 {
        "Выберите папку для публикации"
    } else if i == 19 {
        "Выберите папку синхронизации"
    } else if i == 20 {
        "Выбрать папку"
    } else if i == 21 {
        "Возможности командной строки"
    } else if i == 22 {
        "Diskette запускает консольный клиент yandex-disk: token, start, stop, status, sync, publish и unpublish."
    } else if i == 23 {
        "Справочник команд"
    } else if i == 24 {
        "Команда завершилась с ошибкой"
    } else if i == 25 {
        "Команда завершилась с ошибкой."
    } else if i == 26 {
        "Команда выполнена"
    } else if i == 27 {
        "Команда успешно выполнена."
    } else if i == 28 {
        "Вывод команд"
    } else if i == 29 {
        "Файл конфигурации"
    } else if i == 30 {
        "Не удалось сохранить конфигурацию:"
    } else if i == 31 {
        "Конфигурация сохранена:"
    } else if i == 32 {
        "Подключить Яндекс Диск"
    } else if i == 33 {
        "Подключено"
    } else if i == 34 {
        "Копировать ссылку"
    } else if i == 35 {
        "Состояние демона"
    } else if i == 36 {
        "По умолчанию"
    } else if i == 37 {
        "Diskette готов к работе."
    } else if i == 38 {
        "Ошибка"
    } else if i == 39 {
        "Исключённые папки"
    } else if i == 40 {
        "ошибка"
    } else if i == 41 {
        "Не удалось открыть страницу аутентификации"
    } else if i == 42 {
        "Не удалось открыть папку синхронизации:"
    } else if i == 43 {
        "Путь к файлу или папке"
    } else if i == 44 {
        "В песочнице Flatpak папка хранится в"
    } else if i == 45 {
        "Папка синхронизации задана песочницей Flatpak."
    } else if i == 46 {
        "Синхронизировать"
    } else if i == 47 {
        "Демон в активном режиме запущен с PID"
    } else if i == 48 {
        "Начать"
    } else if i == 49 {
        "Скрыть настройки"
    } else if i == 50 {
        "Установить клиент"
    } else if i == 51 {
        "Последнее действие:"
    } else if i == 52 {
        "Запустить в активном режиме"
    } else if i == 53 {
        "Запускать синхронизацию при входе"
    } else if i == 54 {
        "Подробнее"
    } else if i == 55 {
        "Вручную"
    } else if i == 56 {
        "Прокси вручную"
    } else if i == 57 {
        "Нет"
    } else if i == 58 {
        "нет кода выхода"
    } else if i == 59 {
        "Нет недавних действий"
    } else if i == 60 {
        "Пока недоступно"
    } else if i == 61 {
        "Войдите с учётной записью Яндекса"
    } else if i == 62 {
        "Выберите папку для синхронизации"
    } else if i == 63 {
        "Начните синхронизацию"
    } else if i == 64 {
        "Открыть страницу авторизации"
    } else if i == 65 {
        "Открыть папку синхронизации"
    } else if i == 66 {
        "Открыть документацию консольного клиента Яндекс Диска"
    } else if i == 67 {
        "Открывается страница аутентификации:"
    } else if i == 68 {
        "Открывается папка синхронизации:"
    } else if i == 69 {
        "Обзор"
    } else if i == 70 {
        "Перезаписывать локальные файлы при конфликтах"
    } else if i == 71 {
        "Путь"
    } else if i == 72 {
        "Пути"
    } else if i == 73 {
        "Приостановить"
    } else if i == 74 {
        "Прокси"
    } else if i == 75 {
        "Публичные ссылки"
    } else if i == 76 {
        "Опубликовать"
    } else if i == 77 {
        "Выберите файл или папку для публикации."
    } else if i == 78 {
        "Публичная ссылка"
    } else if i == 79 {
        "Ссылка скопирована в буфер обмена."
    } else if i == 80 {
        "После публикации здесь появится публичная ссылка."
    } else if i == 81 {
        "Ссылки пока нет"
    } else if i == 82 {
        "В очереди:"
    } else if i == 83 {
        "Синхронизация только для чтения"
    } else if i == 84 {
        "Недавние действия"
    } else if i == 85 {
        "Справка"
    } else if i == 86 {
        "Обновить состояние"
    } else if i == 87 {
        "Возобновить"
    } else if i == 88 {
        "Проверить настройки"
    } else if i == 89 {
        "Сначала войдите, чтобы создать файл авторизации."
    } else if i == 90 {
        "Проверьте состояние, чтобы узнать, работает ли демон."
    } else if i == 91 {
        "Сохранить конфигурацию"
    } else if i == 92 {
        "Сохранение конфигурации Яндекс Диска…"
    } else if i == 93 {
        "У выбранного файла нет локального пути."
    } else if i == 94 {
        "У выбранной папки нет локального пути."
    } else if i == 95 {
        "Настройки"
    } else if i == 96 {
        "Доступ"
    } else if i == 97 {
        "Справка клиента"
    } else if i == 98 {
        "Запустите синхронизацию или проверьте состояние."
    } else if i == 99 {
        "Состояние"
    } else if i == 100 {
        "Не удалось проверить состояние"
    } else if i == 101 {
        "Состояние не проверено"
    } else if i == 102 {
        "stderr:"
    } else if i == 103 {
        "stdout:"
    } else if i == 104 {
        "Хранилище"
    } else if i == 105 {
        "Сведения о хранилище появятся после проверки состояния."
    } else if i == 106 {
        "Ожидание состояния"
    } else if i == 107 {
        "успешно"
    } else if i == 108 {
        "Папка, которая синхронизируется с Яндекс Диском."
    } else if i == 109 {
        "Папка синхронизации"
    } else if i == 110 {
        "Параметры синхронизации"
    } else if i == 111 {
        "Состояние синхронизации"
    } else if i == 112 {
        "Снять публикацию"
    } else if i == 113 {
        "Выберите файл или папку, публикацию которых нужно снять."
    } else if i == 114 {
        "Использовать папку по умолчанию"
    } else if i == 115 {
        "Diskette синхронизирует папку с Яндекс Диском с помощью официального консольного клиента."
    } else if i == 116 {
        "Добро пожаловать в Diskette"
    } else {
        "Яндекс Диск подключён"
    }
}

fn text_at(locale: Locale, i: usize) -> (r: &'static str)
    requires
        i < ENTRY_COUNT,
    ensures
        r@ == entry_text(locale, i as int),
{
    match locale {
        Locale::English => english_at(i),
        Locale::Russian => russian_at(i),
    }
}

fn header_at(locale: Locale) -> (r: &'static str)
    ensures
        r@ == header(locale),
{
    match locale {
        Locale::English => "# Diskette messages: English",
        Locale::Russian => "# Diskette messages: Russian",
    }
}

proof fn lemma_terminated_push(ls: Seq<Seq<char>>, l: Seq<char>)
    ensures
        terminated(ls.push(l)) == terminated(ls) + l + seq!['\n'],
{
    lemma_terminated_append(ls, seq![l]);
    assert(ls.push(l) =~= ls + seq![l]);
    assert(seq![l].drop_first() =~= Seq::<Seq<char>>::empty());
    assert(terminated(Seq::<Seq<char>>::empty()) =~= Seq::<char>::empty());
    assert(terminated(seq![l]) =~= l + seq!['\n']);
    assert(terminated(ls) + (l + seq!['\n']) =~= terminated(ls) + l + seq!['\n']);
}

/// The text of the catalog for a locale.
pub fn catalog_chars(locale: Locale) -> (res: Vec<char>)
    ensures
        res@ == catalog_text(locale),
{
    let ghost ls = catalog_lines(locale);
    let mut v: Vec<char> = Vec::new();
    extend_str(&mut v, header_at(locale));
    v.push('\n');
    proof {
        assert(ls.take(1) =~= Seq::<Seq<char>>::empty().push(ls[0]));
        lemma_terminated_push(Seq::<Seq<char>>::empty(), ls[0]);
        assert(terminated(Seq::<Seq<char>>::empty()) =~= Seq::<char>::empty());
        assert(v@ =~= terminated(ls.take(1)));
    }
    let mut i: usize = 0;
    while i < ENTRY_COUNT
        invariant
            i <= ENTRY_COUNT,
            ls == catalog_lines(locale),
            v@ == terminated(ls.take(i + 1)),
        decreases ENTRY_COUNT - i,
    {
        let ghost before = v@;
        extend_str(&mut v, token_at(i));
        v.push('\t');
        extend_str(&mut v, text_at(locale, i));
        v.push('\n');
        proof {
            let l = entry_line(entry_token(i as int), entry_text(locale, i as int));
            assert(ls[i + 1] == l);
            assert(ls.take(i + 2) =~= ls.take(i + 1).push(l));
            lemma_terminated_push(ls.take(i + 1), l);
            assert(v@ =~= before + l + seq!['\n']);
        }
        i = i + 1;
    }
    assert(ls.take(ENTRY_COUNT + 1) =~= ls);
    v
}

// ---------------------------------------------------------------------------
// Both catalogs hold the same tokens
// ---------------------------------------------------------------------------

/// A token as an entry line starts: not empty, not a comment, without a tab
/// or a line feed.
pub open spec fn token_ok(t: Seq<char>) -> bool {
    &&& t.len() > 0
    &&& t[0] != '#'
    &&& forall|j: int| 0 <= j < t.len() ==> t[j] != '\t' && t[j] != '\n'
}

/// A message text: one line, not ended by a carriage return.
pub open spec fn text_ok(x: Seq<char>) -> bool {
    one_line(x) && (x.len() == 0 || x.last() != '\r')
}

pub open spec fn entry_ok(i: int) -> bool {
    token_ok(entry_token(i)) && text_ok(english_text(i)) && text_ok(russian_text(i))
}

proof fn lemma_entries_ok_0()
    ensures
        forall|i: int| 0 <= i < 10 ==> #[trigger] entry_ok(i),
{
    reveal_strlit("activity_waiting_for_commands");
    reveal_strlit("Run a command to see its result here.");
    reveal_strlit("Запустите команду, чтобы увидеть здесь её результат.");
    assert(entry_ok(0));
    reveal_strlit("advanced");
    reveal_strlit("Advanced");
    reveal_strlit("Дополнительно");
    assert(entry_ok(1));
    reveal_strlit("advanced_setup");
    reveal_strlit("Advanced setup");
    reveal_strlit("Расширенная настройка");
    assert(entry_ok(2));
    reveal_strlit("advanced_setup_hint");
    reveal_strlit("Exclusions, proxy and start-up options.");
    reveal_strlit("Исключения, прокси и параметры запуска.");
    assert(entry_ok(3));
    reveal_strlit("auth_file");
    reveal_strlit("Authorization file");
    reveal_strlit("Файл авторизации");
    assert(entry_ok(4));
    reveal_strlit("authentication_failed");
    reveal_strlit("Authentication failed");
    reveal_strlit("Ошибка аутентификации");
    assert(entry_ok(5));
    reveal_strlit("authentication_setup_hint");
    reveal_strlit("Sign in to Yandex Disk to create the authorization file.");
    reveal_strlit("Войдите в Яндекс Диск, чтобы создать файл авторизации.");
    assert(entry_ok(6));
    reveal_strlit("authorization_code_detail");
    reveal_strlit("Enter this code on the Yandex authorization page.");
    reveal_strlit("Введите этот код на странице авторизации Яндекса.");
    assert(entry_ok(7));
    reveal_strlit("authorization_code_ready");
    reveal_strlit("Authorization code");
    reveal_strlit("Код авторизации");
    assert(entry_ok(8));
    reveal_strlit("auto");
    reveal_strlit("Auto");
    reveal_strlit("Авто");
    assert(entry_ok(9));
    assert forall|i: int| 0 <= i < 10 implies #[trigger] entry_ok(i) by {
        if i == 0 {
        } else if i == 1 {
        } else if i == 2 {
        } else if i == 3 {
        } else if i == 4 {
        } else if i == 5 {
        } else if i == 6 {
        } else if i == 7 {
        } else if i == 8 {
        } else if i == 9 {
        }
    }
}

proof fn lemma_entries_ok_1()
    ensures
        forall|i: int| 10 <= i < 20 ==> #[trigger] entry_ok(i),
{
    reveal_strlit("autostart_disabled");
    reveal_strlit("Start at login is disabled.");
    reveal_strlit("Запуск при входе отключён.");
    assert(entry_ok(10));
    reveal_strlit("autostart_file");
    reveal_strlit("Autostart file:");
    reveal_strlit("Файл автозапуска:");
    assert(entry_ok(11));
    reveal_strlit("back");
    reveal_strlit("Back");
    reveal_strlit("Назад");
    assert(entry_ok(12));
    reveal_strlit("choose");
    reveal_strlit("Choose…");
    reveal_strlit("Выбрать…");
    assert(entry_ok(13));
    reveal_strlit("choose_auth_file");
    reveal_strlit("Choose the authorization file");
    reveal_strlit("Выберите файл авторизации");
    assert(entry_ok(14));
    reveal_strlit("choose_file");
    reveal_strlit("Choose file…");
    reveal_strlit("Выбрать файл…");
    assert(entry_ok(15));
    reveal_strlit("choose_file_to_publish");
    reveal_strlit("Choose a file to publish");
    reveal_strlit("Выберите файл для публикации");
    assert(entry_ok(16));
    reveal_strlit("choose_folder");
    reveal_strlit("Choose folder…");
    reveal_strlit("Выбрать папку…");
    assert(entry_ok(17));
    reveal_strlit("choose_folder_to_publish");
    reveal_strlit("Choose a folder to publish");
    reveal_strlit("Выберите папку для публикации");
    assert(entry_ok(18));
    reveal_strlit("choose_sync_directory");
    reveal_strlit("Choose the sync folder");
    reveal_strlit("Выберите папку синхронизации");
    assert(entry_ok(19));
    assert forall|i: int| 10 <= i < 20 implies #[trigger] entry_ok(i) by {
        if i == 10 {
        } else if i == 11 {
        } else if i == 12 {
        } else if i == 13 {
        } else if i == 14 {
        } else if i == 15 {
        } else if i == 16 {
        } else if i == 17 {
        } else if i == 18 {
        } else if i == 19 {
        }
    }
}

proof fn lemma_entries_ok_2()
    ensures
        forall|i: int| 20 <= i < 30 ==> #[trigger] entry_ok(i),
{
    reveal_strlit("choose_sync_folder");
    reveal_strlit("Choose folder");
    reveal_strlit("Выбрать папку");
    assert(entry_ok(20));
    reveal_strlit("cli_coverage");
    reveal_strlit("Command line coverage");
    reveal_strlit("Возможности командной строки");
    assert(entry_ok(21));
    reveal_strlit("cli_coverage_description");
    reveal_strlit("Diskette runs the yandex-disk command line tool: token, start, stop, status, sync, publish and unpublish.");
    reveal_strlit("Diskette запускает консольный клиент yandex-disk: token, start, stop, status, sync, publish и unpublish.");
    assert(entry_ok(22));
    reveal_strlit("command_docs");
    reveal_strlit("Command reference");
    reveal_strlit("Справочник команд");
    assert(entry_ok(23));
    reveal_strlit("command_failed");
    reveal_strlit("Command failed");
    reveal_strlit("Команда завершилась с ошибкой");
    assert(entry_ok(24));
    reveal_strlit("command_failed_sentence");
    reveal_strlit("The command failed.");
    reveal_strlit("Команда завершилась с ошибкой.");
    assert(entry_ok(25));
    reveal_strlit("command_finished");
    reveal_strlit("Command finished");
    reveal_strlit("Команда выполнена");
    assert(entry_ok(26));
    reveal_strlit("command_finished_successfully");
    reveal_strlit("The command finished successfully.");
    reveal_strlit("Команда успешно выполнена.");
    assert(entry_ok(27));
    reveal_strlit("command_output");
    reveal_strlit("Command output");
    reveal_strlit("Вывод команд");
    assert(entry_ok(28));
    reveal_strlit("config_file");
    reveal_strlit("Configuration file");
    reveal_strlit("Файл конфигурации");
    assert(entry_ok(29));
    assert forall|i: int| 20 <= i < 30 implies #[trigger] entry_ok(i) by {
        if i == 20 {
        } else if i == 21 {
        } else if i == 22 {
        } else if i == 23 {
        } else if i == 24 {
        } else if i == 25 {
        } else if i == 26 {
        } else if i == 27 {
        } else if i == 28 {
        } else if i == 29 {
        }
    }
}

proof fn lemma_entries_ok_3()
    ensures
        forall|i: int| 30 <= i < 40 ==> #[trigger] entry_ok(i),
{
    reveal_strlit("configuration_save_failed");
    reveal_strlit("Could not save the configuration:");
    reveal_strlit("Не удалось сохранить конфигурацию:");
    assert(entry_ok(30));
    reveal_strlit("configuration_saved");
    reveal_strlit("Configuration saved:");
    reveal_strlit("Конфигурация сохранена:");
    assert(entry_ok(31));
    reveal_strlit("connect_yandex_disk");
    reveal_strlit("Connect Yandex Disk");
    reveal_strlit("Подключить Яндекс Диск");
    assert(entry_ok(32));
    reveal_strlit("connected");
    reveal_strlit("Connected");
    reveal_strlit("Подключено");
    assert(entry_ok(33));
    reveal_strlit("copy_link");
    reveal_strlit("Copy link");
    reveal_strlit("Копировать ссылку");
    assert(entry_ok(34));
    reveal_strlit("daemon_status");
    reveal_strlit("Daemon status");
    reveal_strlit("Состояние демона");
    assert(entry_ok(35));
    reveal_strlit("default");
    reveal_strlit("Default");
    reveal_strlit("По умолчанию");
    assert(entry_ok(36));
    reveal_strlit("diskette_ready");
    reveal_strlit("Diskette is ready.");
    reveal_strlit("Diskette готов к работе.");
    assert(entry_ok(37));
    reveal_strlit("error");
    reveal_strlit("Error");
    reveal_strlit("Ошибка");
    assert(entry_ok(38));
    reveal_strlit("exclude_dirs");
    reveal_strlit("Excluded folders");
    reveal_strlit("Исключённые папки");
    assert(entry_ok(39));
    assert forall|i: int| 30 <= i < 40 implies #[trigger] entry_ok(i) by {
        if i == 30 {
        } else if i == 31 {
        } else if i == 32 {
        } else if i == 33 {
        } else if i == 34 {
        } else if i == 35 {
        } else if i == 36 {
        } else if i == 37 {
        } else if i == 38 {
        } else if i == 39 {
        }
    }
}

proof fn lemma_entries_ok_4()
    ensures
        forall|i: int| 40 <= i < 50 ==> #[trigger] entry_ok(i),
{
    reveal_strlit("failed");
    reveal_strlit("failed");
    reveal_strlit("ошибка");
    assert(entry_ok(40));
    reveal_strlit("failed_to_open_authentication_page");
    reveal_strlit("Could not open the authentication page");
    reveal_strlit("Не удалось открыть страницу аутентификации");
    assert(entry_ok(41));
    reveal_strlit("failed_to_open_sync_folder");
    reveal_strlit("Could not open the sync folder:");
    reveal_strlit("Не удалось открыть папку синхронизации:");
    assert(entry_ok(42));
    reveal_strlit("file_or_folder_path");
    reveal_strlit("File or folder path");
    reveal_strlit("Путь к файлу или папке");
    assert(entry_ok(43));
    reveal_strlit("flatpak_sync_folder_location");
    reveal_strlit("In the Flatpak sandbox the folder is stored at");
    reveal_strlit("В песочнице Flatpak папка хранится в");
    assert(entry_ok(44));
    reveal_strlit("flatpak_sync_folder_locked");
    reveal_strlit("The sync folder is fixed inside the Flatpak sandbox.");
    reveal_strlit("Папка синхронизации задана песочницей Flatpak.");
    assert(entry_ok(45));
    reveal_strlit("force_sync");
    reveal_strlit("Sync now");
    reveal_strlit("Синхронизировать");
    assert(entry_ok(46));
    reveal_strlit("foreground_daemon_launched_with_pid");
    reveal_strlit("Foreground daemon launched with PID");
    reveal_strlit("Демон в активном режиме запущен с PID");
    assert(entry_ok(47));
    reveal_strlit("get_started");
    reveal_strlit("Get started");
    reveal_strlit("Начать");
    assert(entry_ok(48));
    reveal_strlit("hide_settings");
    reveal_strlit("Hide settings");
    reveal_strlit("Скрыть настройки");
    assert(entry_ok(49));
    assert forall|i: int| 40 <= i < 50 implies #[trigger] entry_ok(i) by {
        if i == 40 {
        } else if i == 41 {
        } else if i == 42 {
        } else if i == 43 {
        } else if i == 44 {
        } else if i == 45 {
        } else if i == 46 {
        } else if i == 47 {
        } else if i == 48 {
        } else if i == 49 {
        }
    }
}

proof fn lemma_entries_ok_5()
    ensures
        forall|i: int| 50 <= i < 60 ==> #[trigger] entry_ok(i),
{
    reveal_strlit("install_cli");
    reveal_strlit("Install the CLI");
    reveal_strlit("Установить клиент");
    assert(entry_ok(50));
    reveal_strlit("last_action");
    reveal_strlit("Last action:");
    reveal_strlit("Последнее действие:");
    assert(entry_ok(51));
    reveal_strlit("launch_foreground_daemon");
    reveal_strlit("Run in foreground");
    reveal_strlit("Запустить в активном режиме");
    assert(entry_ok(52));
    reveal_strlit("launch_sync_at_login");
    reveal_strlit("Start syncing at login");
    reveal_strlit("Запускать синхронизацию при входе");
    assert(entry_ok(53));
    reveal_strlit("learn_more");
    reveal_strlit("Learn more");
    reveal_strlit("Подробнее");
    assert(entry_ok(54));
    reveal_strlit("manual");
    reveal_strlit("Manual");
    reveal_strlit("Вручную");
    assert(entry_ok(55));
    reveal_strlit("manual_proxy");
    reveal_strlit("Manual proxy");
    reveal_strlit("Прокси вручную");
    assert(entry_ok(56));
    reveal_strlit("no");
    reveal_strlit("No");
    reveal_strlit("Нет");
    assert(entry_ok(57));
    reveal_strlit("no_exit_code");
    reveal_strlit("no exit code");
    reveal_strlit("нет кода выхода");
    assert(entry_ok(58));
    reveal_strlit("no_recent_activity");
    reveal_strlit("No recent activity");
    reveal_strlit("Нет недавних действий");
    assert(entry_ok(59));
    assert forall|i: int| 50 <= i < 60 implies #[trigger] entry_ok(i) by {
        if i == 50 {
        } else if i == 51 {
        } else if i == 52 {
        } else if i == 53 {
        } else if i == 54 {
        } else if i == 55 {
        } else if i == 56 {
        } else if i == 57 {
        } else if i == 58 {
        } else if i == 59 {
        }
    }
}

proof fn lemma_entries_ok_6()
    ensures
        forall|i: int| 60 <= i < 70 ==> #[trigger] entry_ok(i),
{
    reveal_strlit("not_available_yet");
    reveal_strlit("Not available yet");
    reveal_strlit("Пока недоступно");
    assert(entry_ok(60));
    reveal_strlit("onboarding_step_auth");
    reveal_strlit("Sign in with your Yandex account");
    reveal_strlit("Войдите с учётной записью Яндекса");
    assert(entry_ok(61));
    reveal_strlit("onboarding_step_folder");
    reveal_strlit("Choose a folder to keep in sync");
    reveal_strlit("Выберите папку для синхронизации");
    assert(entry_ok(62));
    reveal_strlit("onboarding_step_sync");
    reveal_strlit("Start syncing");
    reveal_strlit("Начните синхронизацию");
    assert(entry_ok(63));
    reveal_strlit("open_auth_page");
    reveal_strlit("Open the authorization page");
    reveal_strlit("Открыть страницу авторизации");
    assert(entry_ok(64));
    reveal_strlit("open_sync_folder");
    reveal_strlit("Open sync folder");
    reveal_strlit("Открыть папку синхронизации");
    assert(entry_ok(65));
    reveal_strlit("open_yandex_disk_cli_documentation");
    reveal_strlit("Open the Yandex Disk CLI documentation");
    reveal_strlit("Открыть документацию консольного клиента Яндекс Диска");
    assert(entry_ok(66));
    reveal_strlit("opening_authentication_page");
    reveal_strlit("Opening the authentication page:");
    reveal_strlit("Открывается страница аутентификации:");
    assert(entry_ok(67));
    reveal_strlit("opening_sync_folder");
    reveal_strlit("Opening the sync folder:");
    reveal_strlit("Открывается папка синхронизации:");
    assert(entry_ok(68));
    reveal_strlit("overview");
    reveal_strlit("Overview");
    reveal_strlit("Обзор");
    assert(entry_ok(69));
    assert forall|i: int| 60 <= i < 70 implies #[trigger] entry_ok(i) by {
        if i == 60 {
        } else if i == 61 {
        } else if i == 62 {
        } else if i == 63 {
        } else if i == 64 {
        } else if i == 65 {
        } else if i == 66 {
        } else if i == 67 {
        } else if i == 68 {
        } else if i == 69 {
        }
    }
}

proof fn lemma_entries_ok_7()
    ensures
        forall|i: int| 70 <= i < 80 ==> #[trigger] entry_ok(i),
{
    reveal_strlit("overwrite_local_conflicts");
    reveal_strlit("Overwrite local files on conflicts");
    reveal_strlit("Перезаписывать локальные файлы при конфликтах");
    assert(entry_ok(70));
    reveal_strlit("path");
    reveal_strlit("Path");
    reveal_strlit("Путь");
    assert(entry_ok(71));
    reveal_strlit("paths");
    reveal_strlit("Paths");
    reveal_strlit("Пути");
    assert(entry_ok(72));
    reveal_strlit("pause_sync");
    reveal_strlit("Pause sync");
    reveal_strlit("Приостановить");
    assert(entry_ok(73));
    reveal_strlit("proxy_mode");
    reveal_strlit("Proxy");
    reveal_strlit("Прокси");
    assert(entry_ok(74));
    reveal_strlit("public_links");
    reveal_strlit("Public links");
    reveal_strlit("Публичные ссылки");
    assert(entry_ok(75));
    reveal_strlit("publish");
    reveal_strlit("Publish");
    reveal_strlit("Опубликовать");
    assert(entry_ok(76));
    reveal_strlit("publish_requires_path");
    reveal_strlit("Choose a file or folder to publish.");
    reveal_strlit("Выберите файл или папку для публикации.");
    assert(entry_ok(77));
    reveal_strlit("published_link");
    reveal_strlit("Published link");
    reveal_strlit("Публичная ссылка");
    assert(entry_ok(78));
    reveal_strlit("published_link_copied");
    reveal_strlit("The link was copied to the clipboard.");
    reveal_strlit("Ссылка скопирована в буфер обмена.");
    assert(entry_ok(79));
    assert forall|i: int| 70 <= i < 80 implies #[trigger] entry_ok(i) by {
        if i == 70 {
        } else if i == 71 {
        } else if i == 72 {
        } else if i == 73 {
        } else if i == 74 {
        } else if i == 75 {
        } else if i == 76 {
        } else if i == 77 {
        } else if i == 78 {
        } else if i == 79 {
        }
    }
}

proof fn lemma_entries_ok_8()
    ensures
        forall|i: int| 80 <= i < 90 ==> #[trigger] entry_ok(i),
{
    reveal_strlit("published_link_hint");
    reveal_strlit("The public link appears here after publishing.");
    reveal_strlit("После публикации здесь появится публичная ссылка.");
    assert(entry_ok(80));
    reveal_strlit("published_link_placeholder");
    reveal_strlit("No link yet");
    reveal_strlit("Ссылки пока нет");
    assert(entry_ok(81));
    reveal_strlit("queued");
    reveal_strlit("Queued:");
    reveal_strlit("В очереди:");
    assert(entry_ok(82));
    reveal_strlit("read_only_sync");
    reveal_strlit("Read-only sync");
    reveal_strlit("Синхронизация только для чтения");
    assert(entry_ok(83));
    reveal_strlit("recent_activity");
    reveal_strlit("Recent activity");
    reveal_strlit("Недавние действия");
    assert(entry_ok(84));
    reveal_strlit("reference");
    reveal_strlit("Reference");
    reveal_strlit("Справка");
    assert(entry_ok(85));
    reveal_strlit("refresh_status");
    reveal_strlit("Refresh status");
    reveal_strlit("Обновить состояние");
    assert(entry_ok(86));
    reveal_strlit("resume_sync");
    reveal_strlit("Resume sync");
    reveal_strlit("Возобновить");
    assert(entry_ok(87));
    reveal_strlit("review_settings");
    reveal_strlit("Review settings");
    reveal_strlit("Проверить настройки");
    assert(entry_ok(88));
    reveal_strlit("run_get_token_first");
    reveal_strlit("Sign in first to create the authorization file.");
    reveal_strlit("Сначала войдите, чтобы создать файл авторизации.");
    assert(entry_ok(89));
    assert forall|i: int| 80 <= i < 90 implies #[trigger] entry_ok(i) by {
        if i == 80 {
        } else if i == 81 {
        } else if i == 82 {
        } else if i == 83 {
        } else if i == 84 {
        } else if i == 85 {
        } else if i == 86 {
        } else if i == 87 {
        } else if i == 88 {
        } else if i == 89 {
        }
    }
}

proof fn lemma_entries_ok_9()
    ensures
        forall|i: int| 90 <= i < 100 ==> #[trigger] entry_ok(i),
{
    reveal_strlit("run_status_to_inspect_daemon");
    reveal_strlit("Check the status to inspect the daemon.");
    reveal_strlit("Проверьте состояние, чтобы узнать, работает ли демон.");
    assert(entry_ok(90));
    reveal_strlit("save_configuration");
    reveal_strlit("Save configuration");
    reveal_strlit("Сохранить конфигурацию");
    assert(entry_ok(91));
    reveal_strlit("saving_yandex_disk_configuration");
    reveal_strlit("Saving the Yandex Disk configuration…");
    reveal_strlit("Сохранение конфигурации Яндекс Диска…");
    assert(entry_ok(92));
    reveal_strlit("selected_file_no_local_path");
    reveal_strlit("The selected file has no local path.");
    reveal_strlit("У выбранного файла нет локального пути.");
    assert(entry_ok(93));
    reveal_strlit("selected_folder_no_local_path");
    reveal_strlit("The selected folder has no local path.");
    reveal_strlit("У выбранной папки нет локального пути.");
    assert(entry_ok(94));
    reveal_strlit("settings");
    reveal_strlit("Settings");
    reveal_strlit("Настройки");
    assert(entry_ok(95));
    reveal_strlit("sharing");
    reveal_strlit("Sharing");
    reveal_strlit("Доступ");
    assert(entry_ok(96));
    reveal_strlit("show_cli_help");
    reveal_strlit("Show CLI help");
    reveal_strlit("Справка клиента");
    assert(entry_ok(97));
    reveal_strlit("start_or_status_after_token");
    reveal_strlit("Start syncing or check the status.");
    reveal_strlit("Запустите синхронизацию или проверьте состояние.");
    assert(entry_ok(98));
    reveal_strlit("status");
    reveal_strlit("Status");
    reveal_strlit("Состояние");
    assert(entry_ok(99));
    assert forall|i: int| 90 <= i < 100 implies #[trigger] entry_ok(i) by {
        if i == 90 {
        } else if i == 91 {
        } else if i == 92 {
        } else if i == 93 {
        } else if i == 94 {
        } else if i == 95 {
        } else if i == 96 {
        } else if i == 97 {
        } else if i == 98 {
        } else if i == 99 {
        }
    }
}

proof fn lemma_entries_ok_10()
    ensures
        forall|i: int| 100 <= i < 110 ==> #[trigger] entry_ok(i),
{
    reveal_strlit("status_check_failed");
    reveal_strlit("Status check failed");
    reveal_strlit("Не удалось проверить состояние");
    assert(entry_ok(100));
    reveal_strlit("status_not_checked");
    reveal_strlit("Status not checked");
    reveal_strlit("Состояние не проверено");
    assert(entry_ok(101));
    reveal_strlit("stderr_label");
    reveal_strlit("stderr:");
    reveal_strlit("stderr:");
    assert(entry_ok(102));
    reveal_strlit("stdout_label");
    reveal_strlit("stdout:");
    reveal_strlit("stdout:");
    assert(entry_ok(103));
    reveal_strlit("storage");
    reveal_strlit("Storage");
    reveal_strlit("Хранилище");
    assert(entry_ok(104));
    reveal_strlit("storage_status_hint");
    reveal_strlit("Storage details appear after a status check.");
    reveal_strlit("Сведения о хранилище появятся после проверки состояния.");
    assert(entry_ok(105));
    reveal_strlit("storage_waiting_for_status");
    reveal_strlit("Waiting for status");
    reveal_strlit("Ожидание состояния");
    assert(entry_ok(106));
    reveal_strlit("success");
    reveal_strlit("success");
    reveal_strlit("успешно");
    assert(entry_ok(107));
    reveal_strlit("sync_directory_hint");
    reveal_strlit("The folder that is kept in sync with Yandex Disk.");
    reveal_strlit("Папка, которая синхронизируется с Яндекс Диском.");
    assert(entry_ok(108));
    reveal_strlit("sync_folder");
    reveal_strlit("Sync folder");
    reveal_strlit("Папка синхронизации");
    assert(entry_ok(109));
    assert forall|i: int| 100 <= i < 110 implies #[trigger] entry_ok(i) by {
        if i == 100 {
        } else if i == 101 {
        } else if i == 102 {
        } else if i == 103 {
        } else if i == 104 {
        } else if i == 105 {
        } else if i == 106 {
        } else if i == 107 {
        } else if i == 108 {
        } else if i == 109 {
        }
    }
}

proof fn lemma_entries_ok_11()
    ensures
        forall|i: int| 110 <= i < 118 ==> #[trigger] entry_ok(i),
{
    reveal_strlit("sync_settings");
    reveal_strlit("Sync settings");
    reveal_strlit("Параметры синхронизации");
    assert(entry_ok(110));
    reveal_strlit("sync_status");
    reveal_strlit("Sync status");
    reveal_strlit("Состояние синхронизации");
    assert(entry_ok(111));
    reveal_strlit("unpublish");
    reveal_strlit("Unpublish");
    reveal_strlit("Снять публикацию");
    assert(entry_ok(112));
    reveal_strlit("unpublish_requires_path");
    reveal_strlit("Choose a file or folder to unpublish.");
    reveal_strlit("Выберите файл или папку, публикацию которых нужно снять.");
    assert(entry_ok(113));
    reveal_strlit("use_default_folder");
    reveal_strlit("Use the default folder");
    reveal_strlit("Использовать папку по умолчанию");
    assert(entry_ok(114));
    reveal_strlit("welcome_body");
    reveal_strlit("Diskette keeps a folder in sync with Yandex Disk using the official command line client.");
    reveal_strlit("Diskette синхронизирует папку с Яндекс Диском с помощью официального консольного клиента.");
    assert(entry_ok(115));
    reveal_strlit("welcome_title");
    reveal_strlit("Welcome to Diskette");
    reveal_strlit("Добро пожаловать в Diskette");
    assert(entry_ok(116));
    reveal_strlit("yandex_disk_connected");
    reveal_strlit("Yandex Disk connected");
    reveal_strlit("Яндекс Диск подключён");
    assert(entry_ok(117));
    assert forall|i: int| 110 <= i < 118 implies #[trigger] entry_ok(i) by {
        if i == 110 {
        } else if i == 111 {
        } else if i == 112 {
        } else if i == 113 {
        } else if i == 114 {
        } else if i == 115 {
        } else if i == 116 {
        } else if i == 117 {
        }
    }
}

proof fn lemma_entries_ok()
    ensures
        forall|i: int| 0 <= i < ENTRY_COUNT ==> #[trigger] entry_ok(i),
{
    lemma_entries_ok_0();
    lemma_entries_ok_1();
    lemma_entries_ok_2();
    lemma_entries_ok_3();
    lemma_entries_ok_4();
    lemma_entries_ok_5();
    lemma_entries_ok_6();
    lemma_entries_ok_7();
    lemma_entries_ok_8();
    lemma_entries_ok_9();
    lemma_entries_ok_10();
    lemma_entries_ok_11();
}

/// An entry line reads back as its token and text.
proof fn lemma_entry_line(t: Seq<char>, x: Seq<char>)
    requires
        token_ok(t),
        text_ok(x),
    ensures
        one_line(entry_line(t, x)),
        entry_line(t, x).last() != '\r',
        entry_of(entry_line(t, x)) == Some((t, x)),
{
    let l = entry_line(t, x);
    assert forall|j: int| 0 <= j < l.len() implies l[j] != '\n' by {
        if j < t.len() {
            assert(l[j] == t[j]);
        } else if j > t.len() {
            assert(l[j] == x[j - t.len() - 1]);
        }
    }
    assert(l.last() != '\r') by {
        if x.len() > 0 {
            assert(l.last() == x.last());
        } else {
            assert(l.last() == '\t');
        }
    }
    assert forall|j: int| 0 <= j < t.len() implies l[j] != '\t' by {
        assert(l[j] == t[j]);
    }
    lemma_index_of(l, '\t', t.len() as int);
    assert(l.take(t.len() as int) =~= t);
    assert(l.skip(t.len() as int + 1) =~= x);
    assert(l[0] == t[0]);
}

proof fn lemma_header(locale: Locale)
    ensures
        one_line(header(locale)),
        header(locale).len() > 0,
        header(locale)[0] == '#',
        header(locale).last() != '\r',
{
    reveal_strlit("# Diskette messages: English");
    reveal_strlit("# Diskette messages: Russian");
}

/// The token of a line read as an entry.
pub open spec fn token_of(line: Seq<char>) -> Option<Seq<char>> {
    match entry_of(line) {
        Some((t, _)) => Some(t),
        None => None,
    }
}

/// `find_translation` finds a translation exactly when some line is an entry
/// for the token.
proof fn lemma_find_translation_some(ls: Seq<Seq<char>>, token: Seq<char>)
    ensures
        (find_translation(ls, token) is Some) == (exists|i: int|
            0 <= i < ls.len() && #[trigger] token_of(ls[i]) == Some(token)),
    decreases ls.len(),
{
    if ls.len() > 0 {
        let rest = ls.drop_first();
        lemma_find_translation_some(rest, token);
        if token_of(ls[0]) == Some(token) {
            assert(find_translation(ls, token) is Some);
        }
        if exists|i: int| 0 <= i < rest.len() && #[trigger] token_of(rest[i]) == Some(token) {
            let i = choose|i: int| 0 <= i < rest.len() && #[trigger] token_of(rest[i]) == Some(token);
            assert(token_of(ls[i + 1]) == Some(token));
        }
        if exists|i: int| 0 <= i < ls.len() && #[trigger] token_of(ls[i]) == Some(token) {
            let i = choose|i: int| 0 <= i < ls.len() && #[trigger] token_of(ls[i]) == Some(token);
            if i > 0 {
                assert(rest[i - 1] == ls[i]);
            }
        }
    }
}

/// A catalog's text reads back as its lines, and a token has an entry in it
/// exactly when it is the token of one of the messages.
proof fn lemma_catalog_tokens(locale: Locale, token: Seq<char>)
    ensures
        (lookup_spec(catalog_text(locale), token) is Some) == (exists|k: int|
            0 <= k < ENTRY_COUNT && #[trigger] entry_token(k) == token),
{
    let ls = catalog_lines(locale);
    lemma_entries_ok();
    lemma_header(locale);
    assert forall|i: int| 1 <= i < ls.len() implies #[trigger] token_of(ls[i]) == Some(entry_token(i - 1))
        && one_line(ls[i]) && ls[i].last() != '\r' by {
        assert(entry_ok(i - 1));
        lemma_entry_line(entry_token(i - 1), entry_text(locale, i - 1));
    }
    assert(ls[0] == header(locale));
    assert(token_of(ls[0]) is None);
    assert forall|i: int| 0 <= i < ls.len() implies one_line(#[trigger] ls[i]) by {
        if i > 0 {
            assert(token_of(ls[i]) == Some(entry_token(i - 1)));
        }
    }
    assert forall|i: int| 0 <= i < ls.len() implies (#[trigger] ls[i]).len() == 0 || ls[i].last()
        != '\r' by {
        if i > 0 {
            assert(token_of(ls[i]) == Some(entry_token(i - 1)));
        }
    }
    lemma_lines_terminated(ls);
    lemma_find_translation_some(ls, token);
    if exists|k: int| 0 <= k < ENTRY_COUNT && #[trigger] entry_token(k) == token {
        let k = choose|k: int| 0 <= k < ENTRY_COUNT && #[trigger] entry_token(k) == token;
        assert(token_of(ls[k + 1]) == Some(token));
    }
    if exists|i: int| 0 <= i < ls.len() && #[trigger] token_of(ls[i]) == Some(token) {
        let i = choose|i: int| 0 <= i < ls.len() && #[trigger] token_of(ls[i]) == Some(token);
        assert(i > 0);
        assert(entry_token(i - 1) == token);
    }
}

/// Law: the English and the Russian catalogs hold the same tokens: a token
/// has a message in one exactly when it has one in the other.
pub proof fn lemma_catalogs_have_the_same_tokens(token: Seq<char>)
    ensures
        (lookup_spec(catalog_text(Locale::English), token) is Some) == (lookup_spec(
            catalog_text(Locale::Russian),
            token,
        ) is Some),
{
    lemma_catalog_tokens(Locale::English, token);
    lemma_catalog_tokens(Locale::Russian, token);
}

} // verus!
